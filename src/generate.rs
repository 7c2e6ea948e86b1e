use crate::model::{
    DeclFault, DeclValue, FieldMixins, GeneratedMethod, ImplBlock, MixinAttr, MixinError,
    TargetStruct,
};
use crate::emit::method_text;
use crate::text::{
    colon_at, has_colon, lemma_first_colon_delimits, is_identifier, is_type_expression, parses_as_ident, parses_as_type,
    split_declaration, trim,
};
use vstd::prelude::*;

verus! {

/// One mixin entry: the field's name and one entry of its annotation.
pub type Entry = (Seq<char>, MixinAttr);

/// The declaration text of an entry; other expression forms count as no text.
pub open spec fn decl_text(v: DeclValue) -> Seq<char> {
    match v {
        DeclValue::Text(s) => s@,
        DeclValue::Other => seq![],
    }
}

/// The source method an entry names: the first segment of its key.
pub open spec fn source_of(e: Entry) -> Seq<char> {
    e.1.key@[0]@
}

/// The name of the method emitted for an entry.
pub open spec fn emitted_name(e: Entry) -> Seq<char> {
    let d = decl_text(e.1.value);
    if has_colon(d) {
        trim(d.take(colon_at(d)))
    } else {
        source_of(e)
    }
}

/// The return type text of the method emitted for an entry.
pub open spec fn emitted_type(e: Entry) -> Seq<char> {
    let d = decl_text(e.1.value);
    if has_colon(d) {
        trim(d.skip(colon_at(d) + 1))
    } else {
        trim(d)
    }
}

/// What is wrong with the declaration of an entry whose key is one identifier.
pub open spec fn entry_fault(e: Entry) -> Option<DeclFault> {
    if !(e.1.value is Text) {
        Some(DeclFault::NotStringLiteral)
    } else if emitted_name(e).len() == 0 || !parses_as_ident(emitted_name(e)) {
        Some(DeclFault::InvalidMethodName)
    } else if !parses_as_type(emitted_type(e)) {
        Some(DeclFault::InvalidReturnType)
    } else {
        None
    }
}

pub open spec fn entry_ok(e: Entry) -> bool {
    e.1.key@.len() == 1 && entry_fault(e) is None
}

/// `m` forwards as entry `e` asks.
pub open spec fn method_of(e: Entry, m: GeneratedMethod) -> bool {
    &&& m.name@ == emitted_name(e)
    &&& m.return_type@ == emitted_type(e)
    &&& m.field@ == e.0
    &&& m.source_method@ == source_of(e)
}

/// `err` is the error that entry `e` gives.
pub open spec fn error_of(e: Entry, err: MixinError) -> bool {
    if e.1.key@.len() != 1 {
        &&& err matches MixinError::NonSimpleSourceMethod { field, key }
        &&& field@ == e.0
        &&& key@.len() == e.1.key@.len()
        &&& forall|i: int| 0 <= i < key@.len() ==> #[trigger] key@[i]@ == e.1.key@[i]@
    } else {
        &&& err matches MixinError::MalformedDeclaration {
            field,
            source_method,
            declaration,
            fault,
        }
        &&& field@ == e.0
        &&& source_method@ == source_of(e)
        &&& declaration@ == decl_text(e.1.value)
        &&& entry_fault(e) == Some(fault)
    }
}

/// The entries of one field, in the order of its annotation.
pub open spec fn field_entries(field: Seq<char>, attrs: Seq<MixinAttr>) -> Seq<Entry> {
    attrs.map_values(|a: MixinAttr| (field, a))
}

/// All entries of the fields, in field order, or the first field whose annotation is malformed
/// (its name and the message). Fields without a name take no part.
pub open spec fn extract(fs: Seq<FieldMixins>) -> Result<Seq<Entry>, (Seq<char>, Seq<char>)>
    decreases fs.len(),
{
    if fs.len() == 0 {
        Ok(seq![])
    } else {
        match extract(fs.drop_last()) {
            Err(e) => Err(e),
            Ok(es) => match fs.last().field {
                None => Ok(es),
                Some(name) => match fs.last().attrs {
                    Ok(v) => Ok(es + field_entries(name@, v@)),
                    Err(m) => Err((name@, m@)),
                },
            },
        }
    }
}

/// What generation over entries `es` for structure `ident` returns: every method, in the
/// order of the entries, or the error of the first entry that has one.
pub open spec fn generated_from(
    ident: Seq<char>,
    es: Seq<Entry>,
    r: Result<ImplBlock, MixinError>,
) -> bool {
    &&& r is Ok <==> forall|i: int| 0 <= i < es.len() ==> entry_ok(#[trigger] es[i])
    &&& r matches Ok(b) ==> {
        &&& b.target@ == ident
        &&& b.methods@.len() == es.len()
        &&& forall|i: int| 0 <= i < es.len() ==> method_of(#[trigger] es[i], b.methods@[i])
    }
    &&& r matches Err(err) ==> exists|k: int|
        0 <= k < es.len() && !entry_ok(#[trigger] es[k]) && (forall|j: int|
            0 <= j < k ==> entry_ok(#[trigger] es[j])) && error_of(es[k], err)
}

/// A declaration without a colon keeps the source method's name, takes the whole trimmed
/// text as the return type, and the method's body calls the source method through the field
/// with no argument.
pub proof fn lemma_plain_declaration(field: Seq<char>, attr: MixinAttr, m: GeneratedMethod)
    requires
        attr.key@.len() == 1,
        attr.value is Text,
        !has_colon(decl_text(attr.value)),
        method_of((field, attr), m),
    ensures
        m.name@ == attr.key@[0]@,
        m.return_type@ == trim(decl_text(attr.value)),
        method_text(m) == "pub fn "@ + attr.key@[0]@ + "(&self) -> "@ + trim(decl_text(attr.value))
            + " { self."@ + field + "."@ + attr.key@[0]@ + "() }"@,
{
}

/// A declaration `a:b`, where `a` holds no colon, names the method `a` and gives it the
/// return type `b`, both trimmed, whatever colons `b` holds; it is accepted exactly when `a`
/// is an identifier and `b` a type, and otherwise gives a declaration error.
pub proof fn lemma_renaming_declaration(
    field: Seq<char>,
    attr: MixinAttr,
    a: Seq<char>,
    b: Seq<char>,
)
    requires
        attr.key@.len() == 1,
        attr.value is Text,
        decl_text(attr.value) == a + seq![':'] + b,
        forall|i: int| 0 <= i < a.len() ==> a[i] != ':',
    ensures
        emitted_name((field, attr)) == trim(a),
        emitted_type((field, attr)) == trim(b),
        entry_ok((field, attr)) <==> trim(a).len() > 0 && parses_as_ident(trim(a))
            && parses_as_type(trim(b)),
        !entry_ok((field, attr)) ==> (entry_fault((field, attr)) matches Some(f) && (f
            == DeclFault::InvalidMethodName || f == DeclFault::InvalidReturnType)),
{
    lemma_first_colon_delimits(a, b);
}

/// Two entries whose methods share a name are both emitted: generation does not look for
/// clashes between names.
pub proof fn lemma_same_name_both_emitted(
    ident: Seq<char>,
    e1: Entry,
    e2: Entry,
    r: Result<ImplBlock, MixinError>,
)
    requires
        entry_ok(e1),
        entry_ok(e2),
        emitted_name(e1) == emitted_name(e2),
        generated_from(ident, seq![e1, e2], r),
    ensures
        r is Ok,
        r->Ok_0.methods@.len() == 2,
        r->Ok_0.methods@[0].name@ == r->Ok_0.methods@[1].name@,
        method_of(e1, r->Ok_0.methods@[0]),
        method_of(e2, r->Ok_0.methods@[1]),
{
    let es = seq![e1, e2];
    assert(es[0] == e1 && es[1] == e2);
    assert(forall|i: int| 0 <= i < es.len() ==> entry_ok(#[trigger] es[i]));
}

proof fn lemma_extract_prefix(fs: Seq<FieldMixins>, i: int)
    requires
        0 <= i <= fs.len(),
        extract(fs) is Ok,
    ensures
        extract(fs.take(i)) is Ok,
        extract(fs.take(i))->Ok_0.len() <= extract(fs)->Ok_0.len(),
        extract(fs)->Ok_0.take(extract(fs.take(i))->Ok_0.len() as int) == extract(
            fs.take(i),
        )->Ok_0,
    decreases fs.len(),
{
    if i < fs.len() {
        assert(fs.take(i) =~= fs.drop_last().take(i));
        lemma_extract_prefix(fs.drop_last(), i);
        let p = extract(fs.take(i))->Ok_0;
        let es1 = extract(fs.drop_last())->Ok_0;
        let es = extract(fs)->Ok_0;
        assert(es.take(p.len() as int) =~= es1.take(p.len() as int));
    } else {
        assert(fs.take(i) =~= fs);
        assert(extract(fs)->Ok_0.take(extract(fs)->Ok_0.len() as int) =~= extract(fs)->Ok_0);
    }
}

proof fn lemma_extract_err_prefix(fs: Seq<FieldMixins>, i: int)
    requires
        0 <= i <= fs.len(),
        extract(fs.take(i)) is Err,
    ensures
        extract(fs) == extract(fs.take(i)),
    decreases fs.len(),
{
    if i < fs.len() {
        assert(fs.take(i) =~= fs.drop_last().take(i));
        lemma_extract_err_prefix(fs.drop_last(), i);
    } else {
        assert(fs.take(i) =~= fs);
    }
}

/// Checks that each named field's annotation was well formed.
fn check_attributes(fields: &Vec<FieldMixins>) -> (r: Result<(), MixinError>)
    ensures
        r is Ok <==> extract(fields@) is Ok,
        r matches Err(e) ==> (extract(fields@) matches Err((f, m)) && (e matches
            MixinError::AttributeSyntax { field, message } && field@ == f && message@ == m)),
{
    let mut i: usize = 0;
    while i < fields.len()
        invariant
            i <= fields@.len(),
            extract(fields@.take(i as int)) is Ok,
        decreases fields@.len() - i,
    {
        assert(fields@.take(i + 1).drop_last() =~= fields@.take(i as int));
        let f = &fields[i];
        if let Some(name) = &f.field {
            if let Err(m) = &f.attrs {
                proof {
                    lemma_extract_err_prefix(fields@, i + 1);
                }
                return Err(MixinError::AttributeSyntax { field: name.clone(), message: m.clone() });
            }
        }
        i = i + 1;
    }
    assert(fields@.take(fields@.len() as int) =~= fields@);
    Ok(())
}

/// Generates the implementation block that the annotations of `target` ask for: for a record,
/// one forwarding method per annotation entry, in field order and then in entry order, or the
/// error of the first malformed annotation, else of the first malformed entry; for any other
/// shape, an empty block. Two entries may give methods of the same name: both are emitted.
pub fn generate(target: &TargetStruct) -> (r: Result<ImplBlock, MixinError>)
    ensures
        !target.is_record ==> (r is Ok && r->Ok_0.target@ == target.ident@
            && r->Ok_0.methods@.len() == 0),
        target.is_record ==> match extract(target.fields@) {
            Err((f, m)) => (r matches Err(MixinError::AttributeSyntax { field, message }) && field@
                == f && message@ == m),
            Ok(es) => generated_from(target.ident@, es, r),
        },
        (target.is_record && extract(target.fields@) is Ok && extract(target.fields@)->Ok_0.len()
            == 0) ==> (r is Ok && r->Ok_0.methods@.len() == 0),
{
    if !target.is_record {
        return Ok(ImplBlock { target: target.ident.clone(), methods: Vec::new() });
    }
    let fields = &target.fields;
    match check_attributes(fields) {
        Err(e) => {
            return Err(e);
        },
        Ok(()) => {},
    }
    let ghost all = extract(fields@)->Ok_0;
    let mut methods: Vec<GeneratedMethod> = Vec::new();
    let mut i: usize = 0;
    while i < fields.len()
        invariant
            target.is_record,
            fields == &target.fields,
            i <= fields@.len(),
            extract(fields@) == Ok::<Seq<Entry>, (Seq<char>, Seq<char>)>(all),
            extract(fields@.take(i as int)) is Ok,
            methods@.len() == extract(fields@.take(i as int))->Ok_0.len(),
            methods@.len() <= all.len(),
            forall|k: int|
                0 <= k < methods@.len() ==> entry_ok(#[trigger] all[k]) && method_of(
                    all[k],
                    methods@[k],
                ),
        decreases fields@.len() - i,
    {
        proof {
            lemma_extract_prefix(fields@, i + 1);
            assert(fields@.take(i + 1).drop_last() =~= fields@.take(i as int));
        }
        let ghost prev = extract(fields@.take(i as int))->Ok_0;
        let ghost next = extract(fields@.take(i + 1))->Ok_0;
        let f = &fields[i];
        match &f.field {
            None => {},
            Some(name) => match &f.attrs {
                Err(m) => {
                    return Err(MixinError::AttributeSyntax { field: name.clone(), message: m.clone() });
                },
                Ok(v) => {
                    assert(next == prev + field_entries(name@, v@));
                    let mut j: usize = 0;
                    while j < v.len()
                        invariant
                            target.is_record,
                            fields == &target.fields,
                            extract(fields@) == Ok::<Seq<Entry>, (Seq<char>, Seq<char>)>(all),
                            j <= v@.len(),
                            next == prev + field_entries(name@, v@),
                            next.len() <= all.len(),
                            all.take(next.len() as int) == next,
                            methods@.len() == prev.len() + j,
                            forall|k: int|
                                0 <= k < methods@.len() ==> entry_ok(#[trigger] all[k]) && method_of(
                                    all[k],
                                    methods@[k],
                                ),
                        decreases v@.len() - j,
                    {
                        let ghost k: int = prev.len() + j;
                        assert(all[k] == all.take(next.len() as int)[k]);
                        assert(all[k] == (name@, v@[j as int]));
                        match forwarding_method(name, &v[j]) {
                            Ok(m) => {
                                methods.push(m);
                            },
                            Err(e) => {
                                assert(!entry_ok(all[k]) && error_of(all[k], e));
                                assert(forall|q: int| 0 <= q < k ==> entry_ok(#[trigger] all[q]));
                                return Err(e);
                            },
                        }
                        j = j + 1;
                    }
                },
            },
        }
        i = i + 1;
    }
    assert(fields@.take(fields@.len() as int) =~= fields@);
    Ok(ImplBlock { target: target.ident.clone(), methods })
}

/// Copies the segments of a key.
fn copy_segments(key: &Vec<String>) -> (r: Vec<String>)
    ensures
        r@.len() == key@.len(),
        forall|i: int| 0 <= i < r@.len() ==> #[trigger] r@[i]@ == key@[i]@,
{
    let mut r: Vec<String> = Vec::new();
    let mut i: usize = 0;
    while i < key.len()
        invariant
            i <= key@.len(),
            r@.len() == i,
            forall|j: int| 0 <= j < i ==> #[trigger] r@[j]@ == key@[j]@,
        decreases key@.len() - i,
    {
        r.push(key[i].clone());
        i = i + 1;
    }
    r
}

/// Builds the method for field `field` and source method `source_method`, from the
/// declaration and the name and return type split from it, given whether the name parses as
/// an identifier and the return type as a type.
pub fn assemble_method(
    field: &String,
    source_method: &String,
    declaration: &String,
    name: String,
    return_type: String,
    name_parses: bool,
    type_parses: bool,
) -> (r: Result<GeneratedMethod, MixinError>)
    ensures
        r is Ok <==> name@.len() > 0 && name_parses && type_parses,
        r matches Ok(m) ==> m.name@ == name@ && m.return_type@ == return_type@ && m.field@
            == field@ && m.source_method@ == source_method@,
        r matches Err(e) ==> (e matches MixinError::MalformedDeclaration {
            field: f,
            source_method: s,
            declaration: d,
            fault,
        } && f@ == field@ && s@ == source_method@ && d@ == declaration@ && fault == (if name@.len()
            == 0 || !name_parses {
            DeclFault::InvalidMethodName
        } else {
            DeclFault::InvalidReturnType
        })),
{
    let fault = if name.as_str().is_empty() || !name_parses {
        DeclFault::InvalidMethodName
    } else if !type_parses {
        DeclFault::InvalidReturnType
    } else {
        return Ok(
            GeneratedMethod {
                name,
                return_type,
                field: field.clone(),
                source_method: source_method.clone(),
            },
        );
    };
    Err(
        MixinError::MalformedDeclaration {
            field: field.clone(),
            source_method: source_method.clone(),
            declaration: declaration.clone(),
            fault,
        },
    )
}

/// The forwarding method that one entry of the annotation of `field` asks for, or its error.
pub fn forwarding_method(field: &String, attr: &MixinAttr) -> (r: Result<GeneratedMethod, MixinError>)
    ensures
        r is Ok <==> entry_ok((field@, *attr)),
        r matches Ok(m) ==> method_of((field@, *attr), m),
        r matches Err(e) ==> error_of((field@, *attr), e),
{
    if attr.key.len() != 1 {
        return Err(
            MixinError::NonSimpleSourceMethod { field: field.clone(), key: copy_segments(&attr.key) },
        );
    }
    let source = &attr.key[0];
    match &attr.value {
        DeclValue::Other => Err(
            MixinError::MalformedDeclaration {
                field: field.clone(),
                source_method: source.clone(),
                declaration: String::new(),
                fault: DeclFault::NotStringLiteral,
            },
        ),
        DeclValue::Text(d) => {
            let (name, ty) = split_declaration(source.as_str(), d.as_str());
            let name_parses = is_identifier(name.as_str());
            let type_parses = is_type_expression(ty.as_str());
            assemble_method(field, source, d, name, ty, name_parses, type_parses)
        },
    }
}

} // verus!

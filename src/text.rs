use itertools::Itertools;
use vstd::prelude::*;
use vstd::string::StringExecFns;

verus! {

/// Characters with the Unicode `White_Space` property, which `char::is_whitespace` tests.
pub open spec fn is_white_space(c: char) -> bool {
    let u = c as u32;
    (0x09 <= u && u <= 0x0d) || u == 0x20 || u == 0x85 || u == 0xa0 || u == 0x1680 || (0x2000
        <= u && u <= 0x200a) || u == 0x2028 || u == 0x2029 || u == 0x202f || u == 0x205f || u
        == 0x3000
}

/// `s` without its leading white space.
pub open spec fn trim_start(s: Seq<char>) -> Seq<char>
    decreases s.len(),
{
    if s.len() > 0 && is_white_space(s[0]) {
        trim_start(s.drop_first())
    } else {
        s
    }
}

/// `s` without its trailing white space.
pub open spec fn trim_end(s: Seq<char>) -> Seq<char>
    decreases s.len(),
{
    if s.len() > 0 && is_white_space(s.last()) {
        trim_end(s.drop_last())
    } else {
        s
    }
}

/// `s` without white space at either end.
pub open spec fn trim(s: Seq<char>) -> Seq<char> {
    trim_end(trim_start(s))
}

/// Position of the first `:` in `s`, or `s.len()` when there is none.
pub open spec fn colon_at(s: Seq<char>) -> int
    decreases s.len(),
{
    if s.len() == 0 {
        0
    } else if s[0] == ':' {
        0
    } else {
        1 + colon_at(s.drop_first())
    }
}

pub open spec fn has_colon(s: Seq<char>) -> bool {
    colon_at(s) < s.len()
}

/// Whether syn parses the text as one Rust identifier.
pub uninterp spec fn parses_as_ident(s: Seq<char>) -> bool;

/// Whether syn parses the text as one Rust type expression.
pub uninterp spec fn parses_as_type(s: Seq<char>) -> bool;

pub proof fn lemma_colon_at_bounds(s: Seq<char>)
    ensures
        0 <= colon_at(s) <= s.len(),
        forall|i: int| 0 <= i < colon_at(s) ==> s[i] != ':',
        colon_at(s) < s.len() ==> s[colon_at(s)] == ':',
    decreases s.len(),
{
    if s.len() > 0 && s[0] != ':' {
        lemma_colon_at_bounds(s.drop_first());
        assert forall|i: int| 0 <= i < colon_at(s) implies s[i] != ':' by {
            if i > 0 {
                assert(s[i] == s.drop_first()[i - 1]);
            }
        }
    }
}

/// Only the first colon of a declaration delimits: whatever `a` and `b` are, as long as
/// `a` holds no colon, the text `a:b` splits into `a` and `b`, even where `b` holds more
/// colons.
pub proof fn lemma_first_colon_delimits(a: Seq<char>, b: Seq<char>)
    requires
        forall|i: int| 0 <= i < a.len() ==> a[i] != ':',
    ensures
        has_colon(a + seq![':'] + b),
        (a + seq![':'] + b).take(colon_at(a + seq![':'] + b)) == a,
        (a + seq![':'] + b).skip(colon_at(a + seq![':'] + b) + 1) == b,
    decreases a.len(),
{
    let s = a + seq![':'] + b;
    if a.len() == 0 {
        assert(s[0] == ':');
        assert(s.skip(1) =~= b);
        assert(s.take(0) =~= a);
    } else {
        let a1 = a.drop_first();
        lemma_first_colon_delimits(a1, b);
        assert(s.drop_first() =~= a1 + seq![':'] + b);
        assert(s[0] == a[0]);
        lemma_colon_at_bounds(s.drop_first());
        assert(s.drop_first().take(colon_at(s.drop_first())).len() == a1.len());
        assert(colon_at(s) == 1 + colon_at(s.drop_first()));
        assert(colon_at(s) == a.len());
        assert(s.take(colon_at(s)) =~= a);
        assert(s.skip(colon_at(s) + 1) =~= b);
    }
}

/// Relies on `str::splitn(2, ':')` and itertools' `collect_tuple`: a pair exactly when the
/// text holds a colon, made of the text before the first colon and the text after it.
#[verifier::external_body]
fn split_first_colon(s: &str) -> (r: Option<(String, String)>)
    ensures
        r is Some <==> has_colon(s@),
        r matches Some((a, b)) ==> a@ == s@.take(colon_at(s@)) && b@ == s@.skip(colon_at(s@) + 1),
{
    s.splitn(2, ':').collect_tuple().map(|(a, b): (&str, &str)| (a.to_string(), b.to_string()))
}

/// Relies on `str::trim`: the text without leading and trailing `White_Space` characters.
#[verifier::external_body]
fn trim_text(s: &str) -> (r: String)
    ensures
        r@ == trim(s@),
{
    s.trim().to_string()
}

/// Relies on `syn::parse_str::<syn::Ident>`: whether the text is one identifier.
#[verifier::external_body]
pub(crate) fn is_identifier(s: &str) -> (r: bool)
    ensures
        r == parses_as_ident(s@),
{
    syn::parse_str::<syn::Ident>(s).is_ok()
}

/// Relies on `syn::parse_str::<syn::Type>`: whether the text is one type expression.
#[verifier::external_body]
pub(crate) fn is_type_expression(s: &str) -> (r: bool)
    ensures
        r == parses_as_type(s@),
{
    syn::parse_str::<syn::Type>(s).is_ok()
}

/// Splits a declaration into the emitted method's name and its return type text. With a
/// colon, the name is the text before the first colon and the type the text after it, both
/// trimmed; without one, the name is the source method's and the type is the whole text,
/// trimmed.
pub fn split_declaration(source_method: &str, declaration: &str) -> (r: (String, String))
    ensures
        has_colon(declaration@) ==> r.0@ == trim(declaration@.take(colon_at(declaration@)))
            && r.1@ == trim(declaration@.skip(colon_at(declaration@) + 1)),
        !has_colon(declaration@) ==> r.0@ == source_method@ && r.1@ == trim(declaration@),
{
    match split_first_colon(declaration) {
        Some((name, ty)) => (trim_text(name.as_str()), trim_text(ty.as_str())),
        None => (String::from_str(source_method), trim_text(declaration)),
    }
}

} // verus!

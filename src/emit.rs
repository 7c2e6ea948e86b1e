use crate::model::{GeneratedMethod, ImplBlock};
use vstd::prelude::*;
use vstd::string::StringExecFns;

verus! {

/// `pub fn <name>(&self) -> <return_type> { self.<field>.<source_method>() }`
pub open spec fn method_text(m: GeneratedMethod) -> Seq<char> {
    "pub fn "@ + m.name@ + "(&self) -> "@ + m.return_type@ + " { self."@ + m.field@ + "."@
        + m.source_method@ + "() }"@
}

/// The texts of the methods, each after one space.
pub open spec fn methods_text(ms: Seq<GeneratedMethod>) -> Seq<char>
    decreases ms.len(),
{
    if ms.len() == 0 {
        seq![]
    } else {
        methods_text(ms.drop_last()) + " "@ + method_text(ms.last())
    }
}

/// `impl <target> { <methods> }`
pub open spec fn impl_text(b: ImplBlock) -> Seq<char> {
    "impl "@ + b.target@ + " {"@ + methods_text(b.methods@) + " }"@
}

impl GeneratedMethod {
    /// The Rust source of the forwarding method.
    pub fn render(&self) -> (r: String)
        ensures
            r@ == method_text(*self),
    {
        let mut r = String::from_str("pub fn ");
        r.append(self.name.as_str());
        r.append("(&self) -> ");
        r.append(self.return_type.as_str());
        r.append(" { self.");
        r.append(self.field.as_str());
        r.append(".");
        r.append(self.source_method.as_str());
        r.append("() }");
        r
    }
}

impl ImplBlock {
    /// The Rust source of the implementation block.
    pub fn render(&self) -> (r: String)
        ensures
            r@ == impl_text(*self),
    {
        let mut body = String::new();
        let mut i: usize = 0;
        while i < self.methods.len()
            invariant
                i <= self.methods@.len(),
                body@ == methods_text(self.methods@.take(i as int)),
            decreases self.methods@.len() - i,
        {
            assert(self.methods@.take(i + 1).drop_last() =~= self.methods@.take(i as int));
            body.append(" ");
            let m = self.methods[i].render();
            body.append(m.as_str());
            i = i + 1;
        }
        assert(self.methods@.take(self.methods@.len() as int) =~= self.methods@);
        let mut r = String::from_str("impl ");
        r.append(self.target.as_str());
        r.append(" {");
        r.append(body.as_str());
        r.append(" }");
        r
    }

    /// The first method named `name`, if any.
    pub fn find_method(&self, name: &str) -> (r: Option<&GeneratedMethod>)
        ensures
            r is None <==> forall|i: int|
                0 <= i < self.methods@.len() ==> #[trigger] self.methods@[i].name@ != name@,
            r matches Some(m) ==> exists|i: int|
                0 <= i < self.methods@.len() && self.methods@[i] == *m && m.name@ == name@
                    && forall|j: int|
                    0 <= j < i ==> #[trigger] self.methods@[j].name@ != name@,
    {
        let mut i: usize = 0;
        while i < self.methods.len()
            invariant
                i <= self.methods@.len(),
                forall|j: int| 0 <= j < i ==> #[trigger] self.methods@[j].name@ != name@,
            decreases self.methods@.len() - i,
        {
            if text_eq(self.methods[i].name.as_str(), name) {
                return Some(&self.methods[i]);
            }
            i = i + 1;
        }
        None
    }
}

/// Whether two texts are equal, character by character.
fn text_eq(a: &str, b: &str) -> (r: bool)
    ensures
        r == (a@ == b@),
{
    let n = a.unicode_len();
    if n != b.unicode_len() {
        return false;
    }
    let mut i: usize = 0;
    while i < n
        invariant
            n == a@.len(),
            n == b@.len(),
            i <= n,
            forall|j: int| 0 <= j < i ==> a@[j] == b@[j],
        decreases n - i,
    {
        if a.get_char(i) != b.get_char(i) {
            return false;
        }
        i = i + 1;
    }
    assert(a@ =~= b@);
    true
}

} // verus!

//! Small string helpers: fallbacks, joining, greeting.

use vstd::prelude::*;
use vstd::string::StringExecFns;

verus! {

/// The strings of `parts` with `sep` between each two.
pub open spec fn joined(parts: Seq<Seq<char>>, sep: Seq<char>) -> Seq<char>
    decreases parts.len(),
{
    if parts.len() == 0 {
        Seq::empty()
    } else if parts.len() == 1 {
        parts[0]
    } else {
        joined(parts.drop_last(), sep) + sep + parts.last()
    }
}

/// Joins `parts` with `sep` between each two.
pub fn join(parts: &Vec<String>, sep: &str) -> (r: String)
    ensures
        r@ == joined(parts@.map_values(|p: String| p@), sep@),
{
    let ghost views = parts@.map_values(|p: String| p@);
    let mut r = String::new();
    let mut i: usize = 0;
    assert(views.take(0) =~= Seq::<Seq<char>>::empty());
    while i < parts.len()
        invariant
            views == parts@.map_values(|p: String| p@),
            0 <= i <= parts@.len(),
            r@ == joined(views.take(i as int), sep@),
        decreases parts@.len() - i,
    {
        assert(views.take(i + 1).drop_last() =~= views.take(i as int));
        assert(views.take(i + 1).last() == parts@[i as int]@);
        if i > 0 {
            r.append(sep);
        } else {
            assert(views.take(1) =~= seq![parts@[0]@]);
        }
        r.append(parts[i].as_str());
        i = i + 1;
    }
    assert(views.take(parts@.len() as int) =~= views);
    r
}

/// A string, or a fallback for the empty string.
pub trait FallbackStr {
    fn fallback(&self, fallback: &str) -> String;
}

impl FallbackStr for String {
    /// The string itself unless it is empty; then the fallback.
    fn fallback(&self, fallback: &str) -> (r: String)
        ensures
            self@.len() != 0 ==> r@ == self@,
            self@.len() == 0 ==> r@ == fallback@,
    {
        if !self.as_str().is_empty() {
            self.clone()
        } else {
            String::from_str(fallback)
        }
    }
}

/// A greeting for `s`: "Hello, {s}!".
pub fn greet(s: &str) -> (r: String)
    ensures
        r@ == "Hello, "@ + s@ + "!"@,
{
    let mut r = String::from_str("Hello, ");
    r.append(s);
    r.append("!");
    r
}

} // verus!

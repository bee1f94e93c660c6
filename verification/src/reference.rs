//! References from an ingredient to another recipe file.
use vstd::prelude::*;
use vstd::string::*;

verus! {

/// The parts joined with `sep` between each two of them.
pub open spec fn joined(parts: Seq<Seq<char>>, sep: Seq<char>) -> Seq<char>
    decreases parts.len(),
{
    if parts.len() == 0 {
        Seq::empty()
    } else if parts.len() == 1 {
        parts[0]
    } else {
        joined(parts.drop_last(), sep) + sep + parts.last()
    }
}

/// The text of each string.
pub open spec fn string_views(strings: Seq<String>) -> Seq<Seq<char>> {
    strings.map_values(|s: String| s@)
}

/// Represents a reference to another recipe file
#[derive(Debug, PartialEq)]
pub struct RecipeReference {
    /// The recipe file name (without directory path)
    pub name: String,
    /// Directory path components (e.g., [".", "pasta"] for "./pasta/recipe")
    pub components: Vec<String>,
}

impl Clone for RecipeReference {
    fn clone(&self) -> (r: Self)
        ensures
            r.name == self.name,
            r.components@ == self.components@,
    {
        let components = self.components.clone();
        proof {
            assert(components@ =~= self.components@);
        }
        RecipeReference { name: self.name.clone(), components }
    }
}

impl RecipeReference {
    /// The path that `path(separator)` returns: the components joined by the
    /// separator, then the separator, then the name.
    pub open spec fn path_text(&self, separator: Seq<char>) -> Seq<char> {
        joined(string_views(self.components@), separator) + separator + self.name@
    }

    /// Returns the full path as a string with the given separator
    pub fn path(&self, separator: &str) -> (r: String)
        ensures
            r@ == self.path_text(separator@),
    {
        let ghost parts = string_views(self.components@);
        let n = self.components.len();
        let mut out = String::new();
        let mut i: usize = 0;
        while i < n
            invariant
                n == self.components@.len(),
                parts == string_views(self.components@),
                0 <= i <= n,
                out@ == joined(parts.take(i as int), separator@),
            decreases n - i,
        {
            proof {
                assert(parts.take(i + 1).drop_last() =~= parts.take(i as int));
            }
            if i > 0 {
                out.append(separator);
            }
            out.append(self.components[i].as_str());
            proof {
                if i == 0 {
                    assert(out@ =~= parts.take(1)[0]);
                } else {
                    assert(out@ =~= joined(parts.take(i as int), separator@) + separator@ + parts.take(
                        i + 1,
                    ).last());
                }
            }
            i = i + 1;
        }
        proof {
            assert(parts.take(n as int) =~= parts);
        }
        out.append(separator);
        out.append(self.name.as_str());
        out
    }
}

} // verus!

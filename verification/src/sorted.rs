//! The order checker for identifier paths: case-insensitive comparison
//! with wildcards sorted last, and the first out-of-order path reported
//! against the entry it should have preceded.

use vstd::prelude::*;

verus! {

use core::cmp::Ordering;
use vstd::string::StringExecFns;
use vstd::string::StrSliceExecFns;

/// Where a checked item stood: an enum declaration, a match expression, or
/// a let binding of a match.
#[derive(Debug, Clone, Copy, PartialEq, Eq, Structural)]
pub enum Kind {
    Enum,
    Match,
    Let,
}

/// Whether diagnostics for this kind of item carry usable source spans;
/// only enum declarations do.
pub fn probably_has_spans(kind: Kind) -> (r: bool)
    ensures
        r == (kind is Enum),
{
    match kind {
        Kind::Enum => true,
        Kind::Match | Kind::Let => false,
    }
}

/// The parsed form of an empty argument list: the checker takes no
/// arguments.
#[derive(Debug, Clone, Copy, PartialEq, Eq, Structural)]
pub struct Nothing;

/// An identifier path: its segments, outermost first.
#[derive(Debug)]
pub struct Path {
    pub segments: Vec<String>,
}

/// The code point of `c` with ASCII uppercase folded to lowercase.
pub open spec fn lower_code(c: char) -> u32 {
    if 65 <= c as u32 && c as u32 <= 90 {
        (c as u32 + 32) as u32
    } else {
        c as u32
    }
}

/// Case-insensitive lexicographic comparison of two identifiers by code
/// point.
pub open spec fn spec_str_cmp(a: Seq<char>, b: Seq<char>) -> Ordering
    decreases a.len(),
{
    if a.len() == 0 && b.len() == 0 {
        Ordering::Equal
    } else if a.len() == 0 {
        Ordering::Less
    } else if b.len() == 0 {
        Ordering::Greater
    } else if lower_code(a[0]) < lower_code(b[0]) {
        Ordering::Less
    } else if lower_code(a[0]) > lower_code(b[0]) {
        Ordering::Greater
    } else {
        spec_str_cmp(a.skip(1), b.skip(1))
    }
}

/// Identifier comparison with the wildcard `_` sorted last.
pub open spec fn spec_ident_cmp(a: Seq<char>, b: Seq<char>) -> Ordering {
    if a == seq!['_'] && b == seq!['_'] {
        Ordering::Equal
    } else if a == seq!['_'] {
        Ordering::Greater
    } else if b == seq!['_'] {
        Ordering::Less
    } else {
        spec_str_cmp(a, b)
    }
}

/// Compares two identifiers: `_` sorts last, everything else
/// case-insensitively by code point.
pub fn cmp(lhs: &str, rhs: &str) -> (r: Ordering)
    ensures
        r == spec_ident_cmp(lhs@, rhs@),
{
    let lhs_wild = lhs.unicode_len() == 1 && lhs.get_char(0) == '_';
    let rhs_wild = rhs.unicode_len() == 1 && rhs.get_char(0) == '_';
    proof {
        if lhs_wild {
            assert(lhs@ =~= seq!['_']);
        } else {
            assert(lhs@ != seq!['_']);
        }
        if rhs_wild {
            assert(rhs@ =~= seq!['_']);
        } else {
            assert(rhs@ != seq!['_']);
        }
    }
    if lhs_wild && rhs_wild {
        return Ordering::Equal;
    }
    if lhs_wild {
        return Ordering::Greater;
    }
    if rhs_wild {
        return Ordering::Less;
    }
    let la = lhs.unicode_len();
    let lb = rhs.unicode_len();
    let mut i: usize = 0;
    proof {
        assert(lhs@.skip(0) =~= lhs@);
        assert(rhs@.skip(0) =~= rhs@);
    }
    while i < la && i < lb
        invariant
            i <= la,
            i <= lb,
            la == lhs@.len(),
            lb == rhs@.len(),
            lhs@ != seq!['_'],
            rhs@ != seq!['_'],
            spec_str_cmp(lhs@, rhs@) == spec_str_cmp(lhs@.skip(i as int), rhs@.skip(i as int)),
        decreases la - i,
    {
        let ca = lower_char(lhs.get_char(i));
        let cb = lower_char(rhs.get_char(i));
        proof {
            assert(lhs@.skip(i as int)[0] == lhs@[i as int]);
            assert(rhs@.skip(i as int)[0] == rhs@[i as int]);
        }
        if ca < cb {
            return Ordering::Less;
        }
        if ca > cb {
            return Ordering::Greater;
        }
        proof {
            assert(lhs@.skip(i as int).skip(1) =~= lhs@.skip(i + 1));
            assert(rhs@.skip(i as int).skip(1) =~= rhs@.skip(i + 1));
        }
        i = i + 1;
    }
    if la == lb {
        Ordering::Equal
    } else if la < lb {
        Ordering::Less
    } else {
        Ordering::Greater
    }
}

/// The folded code point of a character.
fn lower_char(c: char) -> (r: u32)
    ensures
        r == lower_code(c),
{
    let u = c as u32;
    if 65 <= u && u <= 90 {
        u + 32
    } else {
        u
    }
}

/// Lexicographic comparison of paths segment by segment, shorter prefix
/// first.
pub open spec fn spec_path_cmp(a: Seq<Seq<char>>, b: Seq<Seq<char>>) -> Ordering
    decreases a.len(),
{
    if a.len() == 0 && b.len() == 0 {
        Ordering::Equal
    } else if a.len() == 0 {
        Ordering::Less
    } else if b.len() == 0 {
        Ordering::Greater
    } else if spec_ident_cmp(a[0], b[0]) != Ordering::Equal {
        spec_ident_cmp(a[0], b[0])
    } else {
        spec_path_cmp(a.skip(1), b.skip(1))
    }
}

impl Path {
    /// The segments as character sequences.
    pub open spec fn spec_segments(&self) -> Seq<Seq<char>> {
        Seq::new(self.segments@.len(), |i: int| self.segments@[i]@)
    }

    /// Compares two paths: segment by segment, then by length.
    pub fn cmp(&self, other: &Path) -> (r: Ordering)
        ensures
            r == spec_path_cmp(self.spec_segments(), other.spec_segments()),
    {
        let la = self.segments.len();
        let lb = other.segments.len();
        let mut i: usize = 0;
        proof {
            assert(self.spec_segments().skip(0) =~= self.spec_segments());
            assert(other.spec_segments().skip(0) =~= other.spec_segments());
        }
        while i < la && i < lb
            invariant
                i <= la,
                i <= lb,
                la == self.segments@.len(),
                lb == other.segments@.len(),
                spec_path_cmp(self.spec_segments(), other.spec_segments()) == spec_path_cmp(
                    self.spec_segments().skip(i as int),
                    other.spec_segments().skip(i as int),
                ),
            decreases la - i,
        {
            let c = cmp(self.segments[i].as_str(), other.segments[i].as_str());
            if !matches!(c, Ordering::Equal) {
                return c;
            }
            proof {
                assert(self.spec_segments().skip(i as int).skip(1) =~= self.spec_segments().skip(
                    i + 1,
                ));
                assert(other.spec_segments().skip(i as int).skip(1)
                    =~= other.spec_segments().skip(i + 1));
            }
            i = i + 1;
        }
        if la == lb {
            Ordering::Equal
        } else if la < lb {
            Ordering::Less
        } else {
            Ordering::Greater
        }
    }

    /// The path written out with `::` between its segments.
    pub fn path_string(&self) -> (r: String)
        ensures
            r@ == spec_path_display(self.spec_segments()),
    {
        let mut r = String::new();
        let mut i: usize = 0;
        proof {
            assert(self.spec_segments().take(0) =~= Seq::<Seq<char>>::empty());
        }
        while i < self.segments.len()
            invariant
                i <= self.segments@.len(),
                r@ == spec_path_display(self.spec_segments().take(i as int)),
            decreases self.segments@.len() - i,
        {
            if i > 0 {
                r.append("::");
            }
            r.append(self.segments[i].as_str());
            proof {
                reveal_strlit("::");
                lemma_display_push(self.spec_segments().take(i as int), self.spec_segments()[
                    i as int
                ]);
                assert(self.spec_segments().take(i as int).push(self.spec_segments()[i as int])
                    =~= self.spec_segments().take(i + 1));
            }
            i = i + 1;
        }
        proof {
            assert(self.spec_segments().take(self.segments@.len() as int)
                =~= self.spec_segments());
        }
        r
    }
}

/// A path rendered with `::` between its segments.
pub open spec fn spec_path_display(segs: Seq<Seq<char>>) -> Seq<char>
    decreases segs.len(),
{
    if segs.len() == 0 {
        Seq::empty()
    } else if segs.len() == 1 {
        segs[0]
    } else {
        segs[0] + "::"@ + spec_path_display(segs.skip(1))
    }
}

/// Appending one more segment extends the rendering by `::` and the
/// segment, except on the empty path.
proof fn lemma_display_push(segs: Seq<Seq<char>>, x: Seq<char>)
    ensures
        spec_path_display(segs.push(x)) == if segs.len() == 0 {
            x
        } else {
            spec_path_display(segs) + "::"@ + x
        },
    decreases segs.len(),
{
    if segs.len() == 0 {
        assert(segs.push(x)[0] == x);
        assert(spec_path_display(segs.push(x)) == x);
    } else {
        assert(segs.push(x).skip(1) =~= segs.skip(1).push(x));
        lemma_display_push(segs.skip(1), x);
        if segs.len() == 1 {
            assert(segs.skip(1).len() == 0);
            assert(spec_path_display(segs.skip(1).push(x)) == x);
            assert(spec_path_display(segs) == segs[0]);
        }
    }
}

/// The diagnostic for an out-of-order entry.
pub open spec fn spec_error_msg(lesser: Seq<Seq<char>>, greater: Seq<Seq<char>>) -> Seq<char> {
    spec_path_display(lesser) + " should sort before "@ + spec_path_display(greater)
}

/// Renders the out-of-order diagnostic: which path should sort before
/// which.
pub fn error(lesser: &Path, greater: &Path) -> (r: String)
    ensures
        r@ == spec_error_msg(lesser.spec_segments(), greater.spec_segments()),
{
    let mut r = lesser.path_string();
    r.append(" should sort before ");
    let g = greater.path_string();
    r.append(g.as_str());
    proof {
        reveal_strlit(" should sort before ");
    }
    r
}

/// The least index at or beyond `i` whose path sorts below its
/// predecessor, or the length when the paths are sorted from `i` on.
pub open spec fn first_unsorted(ps: Seq<Seq<Seq<char>>>, i: int) -> int
    recommends
        1 <= i,
    decreases ps.len() - i,
{
    if i >= ps.len() {
        ps.len() as int
    } else if 1 <= i && spec_path_cmp(ps[i], ps[i - 1]) == Ordering::Less {
        i
    } else {
        first_unsorted(ps, i + 1)
    }
}

/// The least index at or beyond `j` whose path sorts above `x`, or the
/// length when none does.
pub open spec fn first_greater(ps: Seq<Seq<Seq<char>>>, x: Seq<Seq<char>>, j: int) -> int
    recommends
        0 <= j,
    decreases ps.len() - j,
{
    if j >= ps.len() {
        ps.len() as int
    } else if spec_path_cmp(x, ps[j]) == Ordering::Less {
        j
    } else {
        first_greater(ps, x, j + 1)
    }
}

/// The views of a list of paths.
pub open spec fn paths_view(paths: Seq<Path>) -> Seq<Seq<Seq<char>>> {
    Seq::new(paths.len(), |i: int| paths[i].spec_segments())
}

/// Checks that the paths appear in sorted order. Accepts exactly when no
/// entry sorts below its predecessor; otherwise reports that the first
/// such entry should sort before the first entry that exceeds it.
pub fn sorted(paths: &Vec<Path>) -> (r: Result<(), String>)
    ensures
        ({
            let ps = paths_view(paths@);
            &&& (r is Ok <==> first_unsorted(ps, 1) >= ps.len())
            &&& (r matches Err(e) ==> {
                let i = first_unsorted(ps, 1);
                let j = first_greater(ps, ps[i], 0);
                &&& 1 <= i < ps.len()
                &&& 0 <= j < i
                &&& e@ == spec_error_msg(ps[i], ps[j])
            })
        }),
{
    let ghost ps = paths_view(paths@);
    let len = paths.len();
    let mut i: usize = 1;
    while i < len && !matches!(paths[i].cmp(&paths[i - 1]), Ordering::Less)
        invariant
            1 <= i,
            i <= len || len == 0,
            len == paths@.len(),
            ps == paths_view(paths@),
            first_unsorted(ps, 1) == first_unsorted(ps, i as int),
        decreases len - i,
    {
        i = i + 1;
    }
    if i >= len {
        return Ok(());
    }
    // paths[i] sorts below paths[i - 1]: find where it belongs.
    let mut j: usize = 0;
    while j < i && !matches!(paths[i].cmp(&paths[j]), Ordering::Less)
        invariant
            j <= i,
            i < len,
            len == paths@.len(),
            ps == paths_view(paths@),
            first_unsorted(ps, 1) == i as int,
            spec_path_cmp(ps[i as int], ps[i - 1]) == Ordering::Less,
            first_greater(ps, ps[i as int], 0) == first_greater(ps, ps[i as int], j as int),
            forall|t: int|
                0 <= t < j ==> spec_path_cmp(ps[i as int], #[trigger] ps[t]) != Ordering::Less,
        decreases i - j,
    {
        j = j + 1;
    }
    proof {
        if j == i {
            assert(spec_path_cmp(ps[i as int], ps[i - 1]) != Ordering::Less);
            assert(false);
        }
    }
    Err(error(&paths[i], &paths[j]))
}

} // verus!

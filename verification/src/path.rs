//! Paths: hierarchical, dot-delimited flow names.
//!
//! A path is a non-empty sequence of non-empty name segments.  Parsing
//! splits the caller's dotted string on `'.'`; an empty string, a leading
//! or trailing dot, or two adjacent dots all produce an empty segment and
//! are rejected as `InvalidPath`.  Equality is structural, segment by
//! segment.

use crate::FlowError;
use vstd::prelude::*;
use vstd::string::StrSliceExecFns;

verus! {

/// The spec image of a segment vector.
pub open spec fn segs_view(v: Seq<String>) -> Seq<Seq<char>> {
    v.map_values(|x: String| x@)
}

/// Index of the first dot of `s`, or -1 when `s` has none.
pub open spec fn first_dot(s: Seq<char>) -> int
    decreases s.len(),
{
    if s.len() == 0 {
        -1
    } else if s[0] == '.' {
        0
    } else {
        let r = first_dot(s.subrange(1, s.len() as int));
        if r < 0 {
            -1
        } else {
            1 + r
        }
    }
}

/// The segments of `s`: maximal runs between dots, in order.  An empty
/// string yields one empty segment; so does each side of a doubled dot.
pub open spec fn split_spec(s: Seq<char>) -> Seq<Seq<char>>
    decreases s.len(),
{
    let d = first_dot(s);
    if !(0 <= d < s.len()) {
        seq![s]
    } else {
        seq![s.subrange(0, d)] + split_spec(s.subrange(d + 1, s.len() as int))
    }
}

/// Whether every segment is non-empty: the validity rule for paths.
pub open spec fn segments_ok(segs: Seq<Seq<char>>) -> bool {
    forall|i: int| 0 <= i < segs.len() ==> #[trigger] segs[i].len() > 0
}

/// A flow name: the parsed segments of a dotted identifier.
pub struct Path {
    pub segs: Vec<String>,
}

impl View for Path {
    type V = Seq<Seq<char>>;

    open spec fn view(&self) -> Seq<Seq<char>> {
        segs_view(self.segs@)
    }
}

/// The scanned prefix pins down `first_dot`.
proof fn lemma_first_dot_at(s: Seq<char>, i: int)
    requires
        0 <= i <= s.len(),
        forall|j: int| 0 <= j < i ==> s[j] != '.',
        i < s.len() ==> s[i] == '.',
    ensures
        first_dot(s) == if i < s.len() {
            i
        } else {
            -1
        },
    decreases s.len(),
{
    if s.len() > 0 && i > 0 {
        let t = s.subrange(1, s.len() as int);
        assert(forall|j: int| 0 <= j < i - 1 ==> t[j] == s[j + 1]);
        assert(i - 1 < t.len() ==> t[i - 1] == s[i]);
        lemma_first_dot_at(t, i - 1);
    }
}

/// Split a dotted string into its segments, exactly as `split_spec` does.
#[verifier::loop_isolation(false)]
fn split_str(s: &str) -> (r: Vec<String>)
    ensures
        segs_view(r@) == split_spec(s@),
    decreases s@.len(),
{
    let n = s.unicode_len();
    let mut i: usize = 0;
    while i < n && s.get_char(i) != '.'
        invariant
            i <= n,
            forall|j: int| 0 <= j < i ==> s@[j] != '.',
        decreases n - i,
    {
        i = i + 1;
    }
    proof {
        lemma_first_dot_at(s@, i as int);
    }
    if i == n {
        let mut v: Vec<String> = Vec::new();
        v.push(s.to_string());
        proof {
            assert(segs_view(v@) =~= seq![s@]);
        }
        v
    } else {
        let head = s.substring_char(0, i);
        let tail = s.substring_char(i + 1, n);
        let mut v = split_str(tail);
        v.insert(0, head.to_string());
        proof {
            assert(segs_view(v@) =~= seq![s@.subrange(0, i as int)] + split_spec(
                s@.subrange(i + 1, s@.len() as int),
            ));
        }
        v
    }
}

impl Path {
    /// Every segment is non-empty.
    pub open spec fn wf(self) -> bool {
        segments_ok(self@)
    }

    /// Parse a dotted identifier.  Returns the path exactly when every
    /// segment of the input is non-empty, and `InvalidPath` otherwise —
    /// so the empty string, a leading or trailing dot, and a doubled dot
    /// are all rejected.
    #[verifier::loop_isolation(false)]
    pub fn parse(s: &str) -> (r: Result<Path, FlowError>)
        ensures
            r is Ok <==> segments_ok(split_spec(s@)),
            match r {
                Ok(p) => p@ == split_spec(s@) && p.wf(),
                Err(e) => e == FlowError::InvalidPath,
            },
    {
        let segs = split_str(s);
        let n = segs.len();
        let mut i: usize = 0;
        while i < n
            invariant
                i <= n,
                forall|j: int| 0 <= j < i ==> split_spec(s@)[j].len() > 0,
            decreases n - i,
        {
            if segs[i].as_str().is_empty() {
                assert(split_spec(s@)[i as int].len() == 0);
                return Err(FlowError::InvalidPath);
            }
            i = i + 1;
        }
        Ok(Path { segs })
    }

    /// Structural equality, segment by segment.
    #[verifier::loop_isolation(false)]
    pub fn eq_path(&self, other: &Path) -> (r: bool)
        ensures
            r == (self@ == other@),
    {
        let n = self.segs.len();
        if n != other.segs.len() {
            proof {
                assert(self@.len() != other@.len());
            }
            return false;
        }
        let mut i: usize = 0;
        while i < n
            invariant
                i <= n,
                forall|j: int| 0 <= j < i ==> self@[j] == other@[j],
            decreases n - i,
        {
            if !(self.segs[i] == other.segs[i]) {
                proof {
                    assert(self@[i as int] != other@[i as int]);
                }
                return false;
            }
            i = i + 1;
        }
        proof {
            assert(self@ =~= other@);
        }
        true
    }

    /// An independent copy naming the same flow.
    #[verifier::loop_isolation(false)]
    pub fn dup(&self) -> (r: Path)
        ensures
            r@ == self@,
    {
        let n = self.segs.len();
        let mut segs: Vec<String> = Vec::new();
        let mut i: usize = 0;
        while i < n
            invariant
                i <= n,
                segs@.len() == i,
                forall|j: int| 0 <= j < i ==> segs@[j]@ == self@[j],
            decreases n - i,
        {
            segs.push(self.segs[i].clone());
            i = i + 1;
        }
        let r = Path { segs };
        proof {
            assert(r@ =~= self@);
        }
        r
    }
}

} // verus!

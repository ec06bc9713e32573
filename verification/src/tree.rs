//! The library's own model of a concrete syntax tree.
//!
//! The extractor never walks a parser's native tree: parsing converts the
//! parser's output once into this plain recursive structure, and every
//! extraction pass is ordinary verified code over it.  A node carries its
//! grammar kind, the field name it occupies in its parent (if any), whether
//! the grammar counts it as named, its byte span and line span in the
//! original file, and its own source text as characters.

use vstd::prelude::*;
use vstd::string::*;

verus! {

/// One node of a concrete syntax tree.
pub struct SynNode {
    /// The grammar's name for this node, e.g. `function_definition`.
    pub kind: String,
    /// The field name this node occupies in its parent, e.g. `body`.
    pub field: Option<String>,
    /// Whether the grammar counts the node as named (not punctuation).
    pub named: bool,
    /// Byte offset of the node's start in the file.
    pub start_byte: usize,
    /// Byte offset one past the node's end in the file.
    pub end_byte: usize,
    /// Zero-based line of the node's start.
    pub start_row: usize,
    /// Zero-based line of the node's end.
    pub end_row: usize,
    /// The node's own source text.
    pub text: Vec<char>,
    /// The node's children, in document order.
    pub children: Vec<SynNode>,
}

/// Index of the first child of `n` sitting in field `f`, or -1.
pub open spec fn field_idx(n: SynNode, f: Seq<char>) -> int {
    first_field_idx(n.children@, f)
}

/// Whether `n` sits in field `f` of its parent.
pub open spec fn has_field(n: SynNode, f: Seq<char>) -> bool {
    n.field matches Option::Some(g) && g@ == f
}

/// Index of the first node in `s` whose field name is `f`, or -1.
pub open spec fn first_field_idx(s: Seq<SynNode>, f: Seq<char>) -> int
    decreases s.len(),
{
    if s.len() == 0 {
        -1
    } else if has_field(s[0], f) {
        0
    } else {
        let r = first_field_idx(s.drop_first(), f);
        if r == -1 {
            -1
        } else {
            r + 1
        }
    }
}

/// The first child of `n` in field `f`, if any.
pub open spec fn spec_child_by_field(n: SynNode, f: Seq<char>) -> Option<SynNode> {
    if first_field_idx(n.children@, f) == -1 {
        Option::None
    } else {
        Option::Some(n.children@[first_field_idx(n.children@, f)])
    }
}

/// Characterization of `first_field_idx`.
pub proof fn lemma_first_field_idx(s: Seq<SynNode>, f: Seq<char>)
    ensures
        first_field_idx(s, f) >= -1,
        first_field_idx(s, f) == -1 ==> forall|j: int|
            0 <= j < s.len() ==> !has_field(#[trigger] s[j], f),
        first_field_idx(s, f) >= 0 ==> {
            let i = first_field_idx(s, f);
            &&& 0 <= i < s.len()
            &&& has_field(s[i], f)
            &&& forall|j: int| 0 <= j < i ==> !has_field(#[trigger] s[j], f)
        },
    decreases s.len(),
{
    if s.len() > 0 && !has_field(s[0], f) {
        lemma_first_field_idx(s.drop_first(), f);
        let t = s.drop_first();
        let r = first_field_idx(t, f);
        assert(forall|j: int| 0 <= j < t.len() ==> #[trigger] t[j] == s[j + 1]);
        if r == -1 {
            assert forall|j: int| 0 <= j < s.len() implies !has_field(#[trigger] s[j], f) by {
                if j > 0 {
                    assert(s[j] == t[j - 1]);
                }
            }
        } else {
            assert(s[r + 1] == t[r]);
            assert forall|j: int| 0 <= j < r + 1 implies !has_field(#[trigger] s[j], f) by {
                if j > 0 {
                    assert(s[j] == t[j - 1]);
                }
            }
        }
    }
}

impl SynNode {
    /// The first child in field `f`, if any.
    pub fn child_by_field(&self, f: &str) -> (r: Option<&SynNode>)
        ensures
            match r {
                Option::Some(c) => spec_child_by_field(*self, f@) == Option::Some(*c),
                Option::None => spec_child_by_field(*self, f@) is None,
            },
    {
        proof {
            lemma_first_field_idx(self.children@, f@);
        }
        let n = self.children.len();
        let mut i: usize = 0;
        while i < n
            invariant
                i <= n,
                n == self.children@.len(),
                forall|j: int| 0 <= j < i ==> !has_field(#[trigger] self.children@[j], f@),
            decreases n - i,
        {
            match &self.children[i].field {
                Some(g) => {
                    if str_eq(g.as_str(), f) {
                        proof {
                            let k = first_field_idx(self.children@, f@);
                            assert(has_field(self.children@[i as int], f@));
                            assert(k >= 0);
                            if k < i {
                                assert(!has_field(self.children@[k], f@));
                            }
                            if k > i {
                                assert(!has_field(self.children@[i as int], f@));
                            }
                        }
                        return Some(&self.children[i]);
                    }
                },
                None => {},
            }
            i = i + 1;
        }
        None
    }

    /// The index of the first child in field `f`, if any.
    pub fn field_index(&self, f: &str) -> (r: Option<usize>)
        ensures
            match r {
                Option::Some(k) => k < self.children@.len() && first_field_idx(
                    self.children@,
                    f@,
                ) == k,
                Option::None => first_field_idx(self.children@, f@) == -1,
            },
    {
        proof {
            lemma_first_field_idx(self.children@, f@);
        }
        let n = self.children.len();
        let mut i: usize = 0;
        while i < n
            invariant
                i <= n,
                n == self.children@.len(),
                forall|j: int| 0 <= j < i ==> !has_field(#[trigger] self.children@[j], f@),
            decreases n - i,
        {
            match &self.children[i].field {
                Some(g) => {
                    if str_eq(g.as_str(), f) {
                        proof {
                            let k = first_field_idx(self.children@, f@);
                            assert(has_field(self.children@[i as int], f@));
                            assert(k >= 0);
                            if k < i {
                                assert(!has_field(self.children@[k], f@));
                            }
                            if k > i {
                                assert(!has_field(self.children@[i as int], f@));
                            }
                        }
                        return Some(i);
                    }
                },
                None => {},
            }
            i = i + 1;
        }
        None
    }

    /// Whether this node's kind is exactly `k`.
    pub fn is_kind(&self, k: &str) -> (r: bool)
        ensures
            r == (self.kind@ == k@),
    {
        str_eq(self.kind.as_str(), k)
    }
}

/// Compares two string slices character by character.
pub fn str_eq(a: &str, b: &str) -> (r: bool)
    ensures
        r == (a@ == b@),
{
    let n = a.unicode_len();
    if n != b.unicode_len() {
        return false;
    }
    let mut i: usize = 0;
    while i < n
        invariant
            i <= n,
            n == a@.len(),
            n == b@.len(),
            forall|j: int| 0 <= j < i ==> a@[j] == b@[j],
        decreases n - i,
    {
        if a.get_char(i) != b.get_char(i) {
            return false;
        }
        i = i + 1;
    }
    proof {
        assert(a@ =~= b@);
    }
    true
}

} // verus!

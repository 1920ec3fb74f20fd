//! The order of identifiers: segment by segment, each segment character by character
//! (lexicographic; a proper prefix comes first).
use vstd::prelude::*;
use crate::identifier::{Identifier, segment_views};
use crate::schema_core::Cmp;

verus! {

/// Lexicographic comparison of two sequences, with `c` comparing the items: the first
/// differing item decides; if one sequence is a proper prefix of the other, it is less.
pub open spec fn lex<T>(c: spec_fn(T, T) -> Cmp, x: Seq<T>, y: Seq<T>) -> Cmp
    decreases x.len(),
{
    if x.len() == 0 {
        if y.len() == 0 {
            Cmp::Equal
        } else {
            Cmp::Less
        }
    } else if y.len() == 0 {
        Cmp::Greater
    } else if c(x[0], y[0]) != Cmp::Equal {
        c(x[0], y[0])
    } else {
        lex(c, x.drop_first(), y.drop_first())
    }
}

/// `c` is a total order: `Equal` exactly on equal items, swapping the sides swaps `Less`
/// and `Greater`, and `Less` is transitive.
pub open spec fn is_order<T>(c: spec_fn(T, T) -> Cmp) -> bool {
    &&& forall|a: T, b: T|
        #![trigger c(a, b)]
        (c(a, b) == Cmp::Equal <==> a == b) && (c(a, b) == Cmp::Less <==> c(b, a)
            == Cmp::Greater)
    &&& forall|a: T, b: T, d: T|
        #![trigger c(a, b), c(b, d)]
        c(a, b) == Cmp::Less && c(b, d) == Cmp::Less ==> c(a, d) == Cmp::Less
}

/// Characters by their code.
pub open spec fn char_order() -> spec_fn(char, char) -> Cmp {
    |a: char, b: char|
        if (a as int) < (b as int) {
            Cmp::Less
        } else if a == b {
            Cmp::Equal
        } else {
            Cmp::Greater
        }
}

/// Texts (segments) character by character.
pub open spec fn text_order() -> spec_fn(Seq<char>, Seq<char>) -> Cmp {
    |x: Seq<char>, y: Seq<char>| lex(char_order(), x, y)
}

/// Identifiers (given by their segments) segment by segment.
pub open spec fn ident_order(a: Seq<Seq<char>>, b: Seq<Seq<char>>) -> Cmp {
    lex(text_order(), a, b)
}

proof fn lemma_lex_equal<T>(c: spec_fn(T, T) -> Cmp, x: Seq<T>, y: Seq<T>)
    requires
        is_order(c),
    ensures
        lex(c, x, y) == Cmp::Equal <==> x == y,
        lex(c, x, y) == Cmp::Less <==> lex(c, y, x) == Cmp::Greater,
    decreases x.len(),
{
    if x.len() > 0 && y.len() > 0 {
        assert(c(x[0], y[0]) == Cmp::Less <==> c(y[0], x[0]) == Cmp::Greater);
        assert(c(y[0], x[0]) == Cmp::Less <==> c(x[0], y[0]) == Cmp::Greater);
        lemma_lex_equal(c, x.drop_first(), y.drop_first());
        if x.drop_first() == y.drop_first() && x[0] == y[0] {
            assert forall|i: int| 0 <= i < x.len() implies x[i] == y[i] by {
                if i > 0 {
                    assert(x[i] == x.drop_first()[i - 1]);
                    assert(y[i] == y.drop_first()[i - 1]);
                }
            }
            assert(x =~= y);
        }
        if x == y {
            assert(x.drop_first() =~= y.drop_first());
        }
    } else if x.len() == 0 && y.len() == 0 {
        assert(x =~= y);
    }
}

proof fn lemma_lex_transitive<T>(c: spec_fn(T, T) -> Cmp, x: Seq<T>, y: Seq<T>, z: Seq<T>)
    requires
        is_order(c),
        lex(c, x, y) == Cmp::Less,
        lex(c, y, z) == Cmp::Less,
    ensures
        lex(c, x, z) == Cmp::Less,
    decreases x.len(),
{
    if x.len() > 0 && y.len() > 0 && z.len() > 0 {
        let (a, b, d) = (x[0], y[0], z[0]);
        assert(c(a, b) == Cmp::Less <==> c(b, a) == Cmp::Greater);
        assert(c(b, d) == Cmp::Less <==> c(d, b) == Cmp::Greater);
        assert(c(a, d) == Cmp::Less <==> c(d, a) == Cmp::Greater);
        if c(a, b) == Cmp::Equal {
            assert(a == b);
            if c(b, d) == Cmp::Equal {
                assert(b == d);
                lemma_lex_transitive(c, x.drop_first(), y.drop_first(), z.drop_first());
            }
        } else if c(b, d) == Cmp::Equal {
            assert(b == d);
        }
    }
}

/// If `c` is a total order, so is its lexicographic extension to sequences.
pub proof fn lemma_lex_is_order<T>(c: spec_fn(T, T) -> Cmp)
    requires
        is_order(c),
    ensures
        forall|x: Seq<T>, y: Seq<T>|
            (#[trigger] lex(c, x, y) == Cmp::Equal <==> x == y) && (lex(c, x, y) == Cmp::Less
                <==> lex(c, y, x) == Cmp::Greater),
        forall|x: Seq<T>, y: Seq<T>, z: Seq<T>|
            #[trigger] lex(c, x, y) == Cmp::Less && #[trigger] lex(c, y, z) == Cmp::Less ==> lex(
                c,
                x,
                z,
            ) == Cmp::Less,
{
    assert forall|x: Seq<T>, y: Seq<T>|
        (#[trigger] lex(c, x, y) == Cmp::Equal <==> x == y) && (lex(c, x, y) == Cmp::Less
            <==> lex(c, y, x) == Cmp::Greater) by {
        lemma_lex_equal(c, x, y);
    }
    assert forall|x: Seq<T>, y: Seq<T>, z: Seq<T>|
        #[trigger] lex(c, x, y) == Cmp::Less && #[trigger] lex(c, y, z) == Cmp::Less implies lex(
            c,
            x,
            z,
        ) == Cmp::Less by {
        lemma_lex_transitive(c, x, y, z);
    }
}

proof fn lemma_text_order()
    ensures
        is_order(text_order()),
{
    assert forall|a: char, b: char|
        (#[trigger] char_order()(a, b) == Cmp::Equal <==> a == b) && (char_order()(a, b)
            == Cmp::Less <==> char_order()(b, a) == Cmp::Greater) by {
        if a != b {
            assert(a as int != b as int);
        }
    }
    assert forall|a: char, b: char, d: char|
        #[trigger] char_order()(a, b) == Cmp::Less && #[trigger] char_order()(b, d) == Cmp::Less
            implies char_order()(a, d) == Cmp::Less by {}
    lemma_lex_is_order(char_order());
    assert forall|x: Seq<char>, y: Seq<char>|
        (#[trigger] text_order()(x, y) == Cmp::Equal <==> x == y) && (text_order()(x, y)
            == Cmp::Less <==> text_order()(y, x) == Cmp::Greater) by {
        assert(text_order()(x, y) == lex(char_order(), x, y));
        assert(text_order()(y, x) == lex(char_order(), y, x));
    }
    assert forall|x: Seq<char>, y: Seq<char>, z: Seq<char>|
        #[trigger] text_order()(x, y) == Cmp::Less && #[trigger] text_order()(y, z) == Cmp::Less
            implies text_order()(x, z) == Cmp::Less by {
        assert(text_order()(x, y) == lex(char_order(), x, y));
        assert(text_order()(y, z) == lex(char_order(), y, z));
        assert(text_order()(x, z) == lex(char_order(), x, z));
    }
}

/// The order of identifiers is a total order: `Equal` exactly on equal identifiers,
/// swapping the sides swaps `Less` and `Greater`, and `Less` is transitive.
pub proof fn lemma_ident_order()
    ensures
        forall|a: Seq<Seq<char>>, b: Seq<Seq<char>>|
            (#[trigger] ident_order(a, b) == Cmp::Equal <==> a == b) && (ident_order(a, b)
                == Cmp::Less <==> ident_order(b, a) == Cmp::Greater),
        forall|a: Seq<Seq<char>>, b: Seq<Seq<char>>, d: Seq<Seq<char>>|
            #[trigger] ident_order(a, b) == Cmp::Less && #[trigger] ident_order(b, d) == Cmp::Less
                ==> ident_order(a, d) == Cmp::Less,
{
    lemma_text_order();
    lemma_lex_is_order(text_order());
}

/// Comparing `x[i..]` and `y[i..]` when the items at `i` are equal is comparing
/// `x[i + 1..]` and `y[i + 1..]`.
proof fn lemma_lex_step<T>(c: spec_fn(T, T) -> Cmp, x: Seq<T>, y: Seq<T>, i: int)
    requires
        0 <= i < x.len(),
        i < y.len(),
    ensures
        c(x[i], y[i]) != Cmp::Equal ==> lex(c, x.skip(i), y.skip(i)) == c(x[i], y[i]),
        c(x[i], y[i]) == Cmp::Equal ==> lex(c, x.skip(i), y.skip(i)) == lex(
            c,
            x.skip(i + 1),
            y.skip(i + 1),
        ),
{
    assert(x.skip(i)[0] == x[i]);
    assert(y.skip(i)[0] == y[i]);
    assert(x.skip(i).drop_first() =~= x.skip(i + 1));
    assert(y.skip(i).drop_first() =~= y.skip(i + 1));
}

/// Compares two texts character by character.
pub fn compare_texts(x: &str, y: &str) -> (r: Cmp)
    ensures
        r == lex(char_order(), x@, y@),
{
    let n = x.unicode_len();
    let m = y.unicode_len();
    let mut i: usize = 0;
    assert(x@.skip(0) =~= x@);
    assert(y@.skip(0) =~= y@);
    while i < n && i < m
        invariant
            i <= n,
            i <= m,
            n == x@.len(),
            m == y@.len(),
            lex(char_order(), x@, y@) == lex(char_order(), x@.skip(i as int), y@.skip(i as int)),
        decreases n - i,
    {
        let a = x.get_char(i);
        let b = y.get_char(i);
        proof {
            lemma_lex_step(char_order(), x@, y@, i as int);
        }
        if (a as u32) < (b as u32) {
            return Cmp::Less;
        } else if (b as u32) < (a as u32) {
            return Cmp::Greater;
        }
        assert(a as u32 == b as u32);
        assert(a == b);
        i += 1;
    }
    if i == n && i == m {
        assert(x@.skip(i as int).len() == 0);
        Cmp::Equal
    } else if i == n {
        Cmp::Less
    } else {
        Cmp::Greater
    }
}

impl Identifier {
    /// Compares two identifiers segment by segment (see `ident_order`).
    pub fn compare(&self, other: &Identifier) -> (r: Cmp)
        ensures
            r == ident_order(self.view(), other.view()),
    {
        let a = self.segments();
        let b = other.segments();
        let n = a.len();
        let m = b.len();
        let ghost x = self.view();
        let ghost y = other.view();
        assert(x.skip(0) =~= x);
        assert(y.skip(0) =~= y);
        let mut i: usize = 0;
        while i < n && i < m
            invariant
                i <= n,
                i <= m,
                n == a@.len(),
                m == b@.len(),
                x == self.view(),
                y == other.view(),
                x == segment_views(a@),
                y == segment_views(b@),
                ident_order(x, y) == lex(text_order(), x.skip(i as int), y.skip(i as int)),
            decreases n - i,
        {
            let c = compare_texts(a[i].as_str(), b[i].as_str());
            proof {
                assert(x[i as int] == a@[i as int].view());
                assert(y[i as int] == b@[i as int].view());
                assert(text_order()(x[i as int], y[i as int]) == lex(
                    char_order(),
                    x[i as int],
                    y[i as int],
                ));
                lemma_lex_step(text_order(), x, y, i as int);
            }
            if c != Cmp::Equal {
                return c;
            }
            i += 1;
        }
        if i == n && i == m {
            Cmp::Equal
        } else if i == n {
            Cmp::Less
        } else {
            Cmp::Greater
        }
    }
}

} // verus!

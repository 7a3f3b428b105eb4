//! Byte-wise comparison of texts: equality and the lexicographic order that
//! `str` and `CStr` both use.
use core::cmp::Ordering;
use vstd::prelude::*;

verus! {

/// Outcome of comparing two byte strings.
#[derive(Clone, Copy, Debug, PartialEq, Eq, Structural)]
pub enum Order {
    Less,
    Equal,
    Greater,
}

impl Order {
    /// The outcome seen from the other side.
    pub open spec fn flip(self) -> Order {
        match self {
            Order::Less => Order::Greater,
            Order::Equal => Order::Equal,
            Order::Greater => Order::Less,
        }
    }
}

/// The standard library's name for an outcome.
pub open spec fn std_ordering(o: Order) -> Ordering {
    match o {
        Order::Less => Ordering::Less,
        Order::Equal => Ordering::Equal,
        Order::Greater => Ordering::Greater,
    }
}

/// Converts an outcome to the standard library's `Ordering`.
pub fn to_std_ordering(o: Order) -> (r: Ordering)
    ensures
        r == std_ordering(o),
{
    match o {
        Order::Less => Ordering::Less,
        Order::Equal => Ordering::Equal,
        Order::Greater => Ordering::Greater,
    }
}

/// Lexicographic order on bytes: the first differing byte decides, and a
/// proper prefix comes first.
pub open spec fn lex_order(a: Seq<u8>, b: Seq<u8>) -> Order
    decreases a.len(),
{
    if a.len() == 0 {
        if b.len() == 0 {
            Order::Equal
        } else {
            Order::Less
        }
    } else if b.len() == 0 {
        Order::Greater
    } else if a[0] < b[0] {
        Order::Less
    } else if a[0] > b[0] {
        Order::Greater
    } else {
        lex_order(a.drop_first(), b.drop_first())
    }
}

/// A common prefix does not change the order.
proof fn lemma_lex_order_skip(a: Seq<u8>, b: Seq<u8>, n: int)
    requires
        0 <= n <= a.len(),
        n <= b.len(),
        a.take(n) == b.take(n),
    ensures
        lex_order(a, b) == lex_order(a.skip(n), b.skip(n)),
    decreases n,
{
    if n == 0 {
        assert(a.skip(0) =~= a);
        assert(b.skip(0) =~= b);
    } else {
        assert(a[0] == a.take(n)[0]);
        assert(b[0] == b.take(n)[0]);
        assert(a.drop_first().take(n - 1) =~= b.drop_first().take(n - 1)) by {
            assert forall|i: int| 0 <= i < n - 1 implies #[trigger] a.drop_first().take(n - 1)[i]
                == b.drop_first().take(n - 1)[i] by {
                assert(a.drop_first().take(n - 1)[i] == a[i + 1]);
                assert(b.drop_first().take(n - 1)[i] == b[i + 1]);
                assert(a.take(n)[i + 1] == a[i + 1]);
                assert(b.take(n)[i + 1] == b[i + 1]);
            }
        }
        lemma_lex_order_skip(a.drop_first(), b.drop_first(), n - 1);
        assert(a.drop_first().skip(n - 1) =~= a.skip(n));
        assert(b.drop_first().skip(n - 1) =~= b.skip(n));
    }
}

/// `lex_order` is `Equal` exactly on equal byte strings.
pub proof fn lemma_lex_order_equal(a: Seq<u8>, b: Seq<u8>)
    ensures
        (lex_order(a, b) == Order::Equal) <==> (a == b),
    decreases a.len(),
{
    if a.len() == 0 || b.len() == 0 {
        if a.len() == 0 && b.len() == 0 {
            assert(a =~= b);
        }
    } else {
        lemma_lex_order_equal(a.drop_first(), b.drop_first());
        if a == b {
            assert(a.drop_first() =~= b.drop_first());
        }
        if lex_order(a, b) == Order::Equal {
            assert(a[0] == b[0]);
            assert(a.drop_first() == b.drop_first());
            assert forall|i: int| 0 <= i < a.len() implies a[i] == b[i] by {
                if i > 0 {
                    assert(a[i] == a.drop_first()[i - 1]);
                    assert(b[i] == b.drop_first()[i - 1]);
                }
            }
            assert(a =~= b);
        }
    }
}

/// Swapping the operands flips the outcome.
pub proof fn lemma_lex_order_flip(a: Seq<u8>, b: Seq<u8>)
    ensures
        lex_order(b, a) == lex_order(a, b).flip(),
    decreases a.len(),
{
    if a.len() != 0 && b.len() != 0 {
        lemma_lex_order_flip(a.drop_first(), b.drop_first());
    }
}

/// `lex_order` is transitive, so it is a total order.
pub proof fn lemma_lex_order_transitive(a: Seq<u8>, b: Seq<u8>, c: Seq<u8>)
    requires
        lex_order(a, b) == Order::Less,
        lex_order(b, c) == Order::Less,
    ensures
        lex_order(a, c) == Order::Less,
    decreases a.len(),
{
    if a.len() != 0 && b.len() != 0 && c.len() != 0 {
        if a[0] == b[0] && b[0] == c[0] {
            lemma_lex_order_transitive(a.drop_first(), b.drop_first(), c.drop_first());
        }
    }
}

/// `a` is a proper prefix of `b`, or at the first position where they differ
/// the byte of `a` is the smaller one, bytes compared as unsigned values.
pub open spec fn byte_precedes(a: Seq<u8>, b: Seq<u8>) -> bool {
    ||| (a.len() < b.len() && a == b.take(a.len() as int))
    ||| exists|i: int| 0 <= i < a.len() && i < b.len() && #[trigger] a.take(i) == b.take(i) && a[i] < b[i]
}

/// `a` comes before `b` exactly when `byte_precedes(a, b)`: a proper prefix
/// comes first, and otherwise the first differing byte decides by its
/// unsigned value, as `str` orders text.
pub proof fn law_lex_order_less(a: Seq<u8>, b: Seq<u8>)
    ensures
        (lex_order(a, b) == Order::Less) <==> byte_precedes(a, b),
    decreases a.len(),
{
    if a.len() == 0 {
        assert(a =~= b.take(0));
    } else if b.len() == 0 {
    } else if a[0] < b[0] {
        assert(a.take(0) =~= b.take(0));
    } else if a[0] > b[0] {
        if a.len() < b.len() && a == b.take(a.len() as int) {
            assert(a[0] == b.take(a.len() as int)[0]);
        }
        if exists|i: int| 0 <= i < a.len() && i < b.len() && #[trigger] a.take(i) == b.take(i) && a[i] < b[i] {
            let i = choose|i: int| 0 <= i < a.len() && i < b.len() && #[trigger] a.take(i) == b.take(i) && a[i] < b[i];
            if i > 0 {
                assert(a.take(i)[0] == b.take(i)[0]);
            }
        }
    } else {
        let a1 = a.drop_first();
        let b1 = b.drop_first();
        law_lex_order_less(a1, b1);
        // A common first byte can be dropped from both sides of the statement.
        if a1.len() < b1.len() && a1 == b1.take(a1.len() as int) {
            assert forall|j: int| 0 <= j < a.len() implies #[trigger] a[j] == b.take(a.len() as int)[j] by {
                if j > 0 {
                    assert(a[j] == a1[j - 1]);
                    assert(b1.take(a1.len() as int)[j - 1] == b[j]);
                }
            }
            assert(a =~= b.take(a.len() as int));
        }
        if a.len() < b.len() && a == b.take(a.len() as int) {
            assert forall|j: int| 0 <= j < a1.len() implies #[trigger] a1[j] == b1.take(a1.len() as int)[j] by {
                assert(a[j + 1] == b.take(a.len() as int)[j + 1]);
            }
            assert(a1 =~= b1.take(a1.len() as int));
        }
        if exists|i: int| 0 <= i < a1.len() && i < b1.len() && #[trigger] a1.take(i) == b1.take(i) && a1[i] < b1[i] {
            let i = choose|i: int| 0 <= i < a1.len() && i < b1.len() && #[trigger] a1.take(i) == b1.take(i) && a1[i] < b1[i];
            assert forall|j: int| 0 <= j < i + 1 implies #[trigger] a.take(i + 1)[j] == b.take(i + 1)[j] by {
                if j > 0 {
                    assert(a1.take(i)[j - 1] == b1.take(i)[j - 1]);
                }
            }
            assert(a.take(i + 1) =~= b.take(i + 1));
            assert(a[i + 1] == a1[i]);
        }
        if exists|i: int| 0 <= i < a.len() && i < b.len() && #[trigger] a.take(i) == b.take(i) && a[i] < b[i] {
            let i = choose|i: int| 0 <= i < a.len() && i < b.len() && #[trigger] a.take(i) == b.take(i) && a[i] < b[i];
            assert(i > 0);
            assert forall|j: int| 0 <= j < i - 1 implies #[trigger] a1.take(i - 1)[j] == b1.take(i - 1)[j] by {
                assert(a.take(i)[j + 1] == b.take(i)[j + 1]);
            }
            assert(a1.take(i - 1) =~= b1.take(i - 1));
            assert(a1[i - 1] == a[i]);
        }
    }
}

/// The three outcomes of `lex_order`, each by what the texts are: `Less`
/// when `a` precedes `b`, `Equal` when they are the same bytes, `Greater`
/// when `b` precedes `a`.
pub proof fn law_lex_order_outcomes(a: Seq<u8>, b: Seq<u8>)
    ensures
        (lex_order(a, b) == Order::Less) <==> byte_precedes(a, b),
        (lex_order(a, b) == Order::Equal) <==> a == b,
        (lex_order(a, b) == Order::Greater) <==> byte_precedes(b, a),
{
    law_lex_order_less(a, b);
    law_lex_order_less(b, a);
    lemma_lex_order_equal(a, b);
    lemma_lex_order_flip(a, b);
}

/// Byte order on single bytes is their unsigned order.
pub proof fn law_lex_order_single_bytes(x: u8, y: u8)
    ensures
        x < y ==> lex_order(seq![x], seq![y]) == Order::Less,
        x == y ==> lex_order(seq![x], seq![y]) == Order::Equal,
        x > y ==> lex_order(seq![x], seq![y]) == Order::Greater,
{
    law_lex_order_less(seq![x], seq![y]);
    law_lex_order_less(seq![y], seq![x]);
    lemma_lex_order_flip(seq![x], seq![y]);
    lemma_lex_order_equal(seq![x], seq![y]);
    if x < y {
        assert(seq![x].take(0) =~= seq![y].take(0));
    }
    if x > y {
        assert(seq![y].take(0) =~= seq![x].take(0));
    }
}

/// Number of leading bytes on which `a` and `b` agree.
fn common_prefix_len(a: &[u8], b: &[u8]) -> (n: usize)
    ensures
        n <= a@.len(),
        n <= b@.len(),
        a@.take(n as int) == b@.take(n as int),
        n < a@.len() && n < b@.len() ==> a@[n as int] != b@[n as int],
{
    let mut i: usize = 0;
    while i < a.len() && i < b.len() && a[i] == b[i]
        invariant
            i <= a@.len(),
            i <= b@.len(),
            a@.take(i as int) == b@.take(i as int),
        decreases a@.len() - i,
    {
        assert(a@.take(i + 1) =~= a@.take(i as int).push(a@[i as int]));
        assert(b@.take(i + 1) =~= b@.take(i as int).push(b@[i as int]));
        i = i + 1;
    }
    i
}

/// Lexicographic comparison of two byte strings.
pub fn compare_bytes(a: &[u8], b: &[u8]) -> (r: Order)
    ensures
        r == lex_order(a@, b@),
{
    let n = common_prefix_len(a, b);
    proof {
        lemma_lex_order_skip(a@, b@, n as int);
    }
    if n < a.len() && n < b.len() {
        if a[n] < b[n] {
            Order::Less
        } else {
            Order::Greater
        }
    } else if n < b.len() {
        Order::Less
    } else if n < a.len() {
        Order::Greater
    } else {
        Order::Equal
    }
}

/// Whether two byte strings are equal.
pub fn bytes_equal(a: &[u8], b: &[u8]) -> (r: bool)
    ensures
        r == (a@ == b@),
{
    let n = common_prefix_len(a, b);
    if n == a.len() && n == b.len() {
        assert(a@ =~= a@.take(n as int));
        assert(b@ =~= b@.take(n as int));
        true
    } else {
        proof {
            if a@ == b@ {
                assert(a@[n as int] == b@[n as int]);
            }
        }
        false
    }
}

} // verus!

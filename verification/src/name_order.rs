//! The order in which names stand in the tree: that of their UTF-8 bytes,
//! compared lexicographically.

use vstd::prelude::*;
use vstd::utf8::*;
use vstd::string::*;

verus! {

/// `a` and `b` agree on their first `k` bytes, and at `k` either `a` ends
/// while `b` goes on, or `a` has the smaller byte.
pub open spec fn parts_at(a: Seq<u8>, b: Seq<u8>, k: int) -> bool {
    &&& 0 <= k < b.len()
    &&& k <= a.len()
    &&& forall|j: int| 0 <= j < k ==> a[j] == b[j]
    &&& (k == a.len() || a[k] < b[k])
}

/// `a` stands strictly before `b` in lexicographic byte order.
pub open spec fn bytes_before(a: Seq<u8>, b: Seq<u8>) -> bool {
    exists|k: int| #[trigger] parts_at(a, b, k)
}

/// The name `a` stands strictly before the name `b`.
pub open spec fn name_before(a: Seq<char>, b: Seq<char>) -> bool {
    bytes_before(encode_utf8(a), encode_utf8(b))
}

/// How one name stands to another.
#[derive(Clone, Copy, Debug, PartialEq, Eq, Structural)]
pub enum Placement {
    Before,
    Same,
    After,
}

/// A byte sequence never stands before itself, and of two sequences at most
/// one stands before the other.
pub proof fn lemma_bytes_before_asymmetric(a: Seq<u8>, b: Seq<u8>)
    requires
        bytes_before(a, b),
    ensures
        !bytes_before(b, a),
        a != b,
{
    let k = choose|k: int| #[trigger] parts_at(a, b, k);
    if bytes_before(b, a) {
        let m = choose|m: int| #[trigger] parts_at(b, a, m);
        if k < m {
            assert(b[k] == a[k]);
        } else if m < k {
            assert(a[m] == b[m]);
        }
    }
}

/// The byte order is transitive.
pub proof fn lemma_bytes_before_transitive(a: Seq<u8>, b: Seq<u8>, c: Seq<u8>)
    requires
        bytes_before(a, b),
        bytes_before(b, c),
    ensures
        bytes_before(a, c),
{
    let k = choose|k: int| #[trigger] parts_at(a, b, k);
    let m = choose|m: int| #[trigger] parts_at(b, c, m);
    let n = if k <= m { k } else { m };
    assert forall|j: int| 0 <= j < n implies a[j] == c[j] by {
        assert(a[j] == b[j]);
        assert(b[j] == c[j]);
    }
    assert(parts_at(a, c, n));
}

/// Names stand in a strict order: none before itself, no two both ways.
pub proof fn lemma_name_before_asymmetric(a: Seq<char>, b: Seq<char>)
    requires
        name_before(a, b),
    ensures
        !name_before(b, a),
        a != b,
{
    lemma_bytes_before_asymmetric(encode_utf8(a), encode_utf8(b));
}

/// The order of names is transitive.
pub proof fn lemma_name_before_transitive(a: Seq<char>, b: Seq<char>, c: Seq<char>)
    requires
        name_before(a, b),
        name_before(b, c),
    ensures
        name_before(a, c),
{
    lemma_bytes_before_transitive(encode_utf8(a), encode_utf8(b), encode_utf8(c));
}

/// Of two names exactly one holds: the first stands before the second, they
/// are the same name, or the second stands before the first.
pub proof fn lemma_name_order_total(a: Seq<char>, b: Seq<char>)
    ensures
        name_before(a, b) || a == b || name_before(b, a),
        !(name_before(a, b) && a == b),
        !(name_before(a, b) && name_before(b, a)),
        !(a == b && name_before(b, a)),
{
    let x = encode_utf8(a);
    let y = encode_utf8(b);
    if name_before(a, b) {
        lemma_name_before_asymmetric(a, b);
    }
    if name_before(b, a) {
        lemma_name_before_asymmetric(b, a);
    }
    if !name_before(a, b) && !name_before(b, a) {
        lemma_agree_or_part(x, y, if x.len() <= y.len() { x.len() as int } else { y.len() as int });
        assert(x =~= y);
        encode_utf8_decode_utf8(a);
        encode_utf8_decode_utf8(b);
    }
}

/// Two byte sequences agree on every prefix that both have, unless one stands
/// before the other.
proof fn lemma_agree_or_part(x: Seq<u8>, y: Seq<u8>, n: int)
    requires
        0 <= n <= x.len(),
        n <= y.len(),
        !bytes_before(x, y),
        !bytes_before(y, x),
    ensures
        forall|j: int| 0 <= j < n ==> x[j] == y[j],
        n == x.len() || n == y.len() ==> x.len() == y.len(),
    decreases n,
{
    if n > 0 {
        lemma_agree_or_part(x, y, n - 1);
        if x[n - 1] != y[n - 1] {
            if x[n - 1] < y[n - 1] {
                assert(parts_at(x, y, n - 1));
            } else {
                assert(parts_at(y, x, n - 1));
            }
        }
    }
    if n == x.len() && n < y.len() {
        assert(parts_at(x, y, n));
    }
    if n == y.len() && n < x.len() {
        assert(parts_at(y, x, n));
    }
}

/// The names stand in strictly ascending order.
pub open spec fn names_ascend(names: Seq<Seq<char>>) -> bool {
    forall|i: int, j: int| 0 <= i < j < names.len() ==> name_before(#[trigger] names[i], #[trigger] names[j])
}

/// Names in strictly ascending order are pairwise different.
pub proof fn lemma_names_distinct(names: Seq<Seq<char>>)
    requires
        names_ascend(names),
    ensures
        forall|i: int, j: int|
            0 <= i < names.len() && 0 <= j < names.len() && i != j ==> #[trigger] names[i]
                != #[trigger] names[j],
{
    assert forall|i: int, j: int|
        0 <= i < names.len() && 0 <= j < names.len() && i != j implies #[trigger] names[i]
        != #[trigger] names[j] by {
        if i < j {
            lemma_name_before_asymmetric(names[i], names[j]);
        } else {
            lemma_name_before_asymmetric(names[j], names[i]);
        }
    }
}

/// A name that stands after all names before `pos` and before the name at
/// `pos` is none of the names, and may join them at `pos`.
pub proof fn lemma_names_gap(names: Seq<Seq<char>>, pos: int, name: Seq<char>)
    requires
        names_ascend(names),
        0 <= pos <= names.len(),
        forall|j: int| 0 <= j < pos ==> name_before(#[trigger] names[j], name),
        pos == names.len() || name_before(name, names[pos]),
    ensures
        names_ascend(names.insert(pos, name)),
        forall|j: int| 0 <= j < names.len() ==> #[trigger] names[j] != name,
{
    assert forall|j: int| pos <= j < names.len() implies name_before(name, #[trigger] names[j]) by {
        if j > pos {
            lemma_name_before_transitive(name, names[pos], names[j]);
        }
    }
    assert forall|j: int| 0 <= j < names.len() implies #[trigger] names[j] != name by {
        if j < pos {
            lemma_name_before_asymmetric(names[j], name);
        } else {
            lemma_name_before_asymmetric(name, names[j]);
        }
    }
    let grown = names.insert(pos, name);
    assert forall|i: int, j: int| 0 <= i < j < grown.len() implies name_before(
        #[trigger] grown[i],
        #[trigger] grown[j],
    ) by {
        let a = if i < pos { i } else { i - 1 };
        let b = if j < pos { j } else { j - 1 };
        if i != pos {
            assert(grown[i] == names[a]);
        }
        if j != pos {
            assert(grown[j] == names[b]);
        }
    }
}

/// Tells how the name `a` stands to the name `b`.
pub fn place_name(a: &str, b: &str) -> (p: Placement)
    ensures
        p == Placement::Before <==> name_before(a@, b@),
        p == Placement::Same <==> a@ == b@,
        p == Placement::After <==> name_before(b@, a@),
{
    let x = a.as_bytes();
    let y = b.as_bytes();
    proof {
        lemma_name_order_total(a@, b@);
    }
    let mut i: usize = 0;
    while i < x.len() && i < y.len()
        invariant
            i <= x.len(),
            i <= y.len(),
            x@ == encode_utf8(a@),
            y@ == encode_utf8(b@),
            forall|j: int| 0 <= j < i ==> x@[j] == y@[j],
        decreases x.len() - i,
    {
        if x[i] < y[i] {
            assert(parts_at(x@, y@, i as int));
            return Placement::Before;
        }
        if x[i] > y[i] {
            assert(parts_at(y@, x@, i as int));
            return Placement::After;
        }
        i += 1;
    }
    if i < y.len() {
        assert(parts_at(x@, y@, i as int));
        Placement::Before
    } else if i < x.len() {
        assert(parts_at(y@, x@, i as int));
        Placement::After
    } else {
        assert(x@ =~= y@);
        proof {
            encode_utf8_decode_utf8(a@);
            encode_utf8_decode_utf8(b@);
        }
        Placement::Same
    }
}

} // verus!

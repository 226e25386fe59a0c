//! Text comparison, ordering and joining.
use vstd::prelude::*;
use vstd::string::*;

verus! {

/// `a` comes no later than `b` when byte strings are ordered lexicographically.
pub open spec fn bytes_le(a: Seq<u8>, b: Seq<u8>) -> bool
    decreases a.len(),
{
    if a.len() == 0 {
        true
    } else if b.len() == 0 {
        false
    } else if a[0] != b[0] {
        a[0] < b[0]
    } else {
        bytes_le(a.drop_first(), b.drop_first())
    }
}

/// `a` comes no later than `b` in the order of text: lexicographic on the UTF-8 bytes.
pub open spec fn text_le(a: Seq<char>, b: Seq<char>) -> bool {
    bytes_le(vstd::utf8::encode_utf8(a), vstd::utf8::encode_utf8(b))
}

/// The order of text, as a relation.
pub open spec fn text_order() -> spec_fn(Seq<char>, Seq<char>) -> bool {
    |a: Seq<char>, b: Seq<char>| text_le(a, b)
}

/// The same texts in ascending order.
pub open spec fn in_order(names: Seq<Seq<char>>) -> Seq<Seq<char>> {
    names.sort_by(text_order())
}

/// The text that each string of a sequence holds.
pub open spec fn texts(names: Seq<String>) -> Seq<Seq<char>> {
    names.map_values(|name: String| name@)
}

/// Every name preceded by a comma.
pub open spec fn comma_led(names: Seq<Seq<char>>) -> Seq<char>
    decreases names.len(),
{
    if names.len() == 0 {
        seq![]
    } else {
        seq![','] + names[0] + comma_led(names.drop_first())
    }
}

/// The names with a comma between neighbours.
pub open spec fn comma_joined(names: Seq<Seq<char>>) -> Seq<char> {
    if names.len() == 0 {
        seq![]
    } else {
        names[0] + comma_led(names.drop_first())
    }
}

proof fn lemma_bytes_le_reflexive(a: Seq<u8>)
    ensures
        bytes_le(a, a),
    decreases a.len(),
{
    if a.len() > 0 {
        lemma_bytes_le_reflexive(a.drop_first());
    }
}

proof fn lemma_bytes_le_total(a: Seq<u8>, b: Seq<u8>)
    ensures
        bytes_le(a, b) || bytes_le(b, a),
    decreases a.len(),
{
    if a.len() > 0 && b.len() > 0 {
        lemma_bytes_le_total(a.drop_first(), b.drop_first());
    }
}

proof fn lemma_bytes_le_antisymmetric(a: Seq<u8>, b: Seq<u8>)
    requires
        bytes_le(a, b),
        bytes_le(b, a),
    ensures
        a == b,
    decreases a.len(),
{
    if a.len() > 0 && b.len() > 0 {
        lemma_bytes_le_antisymmetric(a.drop_first(), b.drop_first());
        assert(a =~= seq![a[0]] + a.drop_first());
        assert(b =~= seq![b[0]] + b.drop_first());
    } else {
        assert(a =~= b);
    }
}

proof fn lemma_bytes_le_transitive(a: Seq<u8>, b: Seq<u8>, c: Seq<u8>)
    requires
        bytes_le(a, b),
        bytes_le(b, c),
    ensures
        bytes_le(a, c),
    decreases a.len(),
{
    if a.len() > 0 && b.len() > 0 && c.len() > 0 && a[0] == b[0] && b[0] == c[0] {
        lemma_bytes_le_transitive(a.drop_first(), b.drop_first(), c.drop_first());
    }
}

/// Texts with the same UTF-8 encoding are the same text.
pub proof fn lemma_encoding_is_injective(a: Seq<char>, b: Seq<char>)
    requires
        vstd::utf8::encode_utf8(a) == vstd::utf8::encode_utf8(b),
    ensures
        a == b,
{
    vstd::utf8::encode_utf8_decode_utf8(a);
    vstd::utf8::encode_utf8_decode_utf8(b);
}

/// The order of text is total.
pub proof fn lemma_text_order_is_total()
    ensures
        vstd::relations::total_ordering(text_order()),
{
    let order = text_order();
    assert forall|a: Seq<char>| #[trigger] order(a, a) by {
        lemma_bytes_le_reflexive(vstd::utf8::encode_utf8(a));
    }
    assert forall|a: Seq<char>, b: Seq<char>| #[trigger] order(a, b) && #[trigger] order(
        b,
        a,
    ) implies a == b by {
        lemma_bytes_le_antisymmetric(vstd::utf8::encode_utf8(a), vstd::utf8::encode_utf8(b));
        lemma_encoding_is_injective(a, b);
    }
    assert forall|a: Seq<char>, b: Seq<char>, c: Seq<char>| #[trigger] order(a, b)
        && #[trigger] order(b, c) implies order(a, c) by {
        lemma_bytes_le_transitive(
            vstd::utf8::encode_utf8(a),
            vstd::utf8::encode_utf8(b),
            vstd::utf8::encode_utf8(c),
        );
    }
    assert forall|a: Seq<char>, b: Seq<char>| #[trigger] order(a, b) || #[trigger] order(b, a) by {
        lemma_bytes_le_total(vstd::utf8::encode_utf8(a), vstd::utf8::encode_utf8(b));
    }
}

/// Sorting keeps the names, and lists that hold the same names are sorted into one list.
pub proof fn lemma_in_order_depends_on_names(a: Seq<Seq<char>>, b: Seq<Seq<char>>)
    ensures
        in_order(a).to_multiset() == a.to_multiset(),
        a.to_multiset() == b.to_multiset() <==> in_order(a) == in_order(b),
{
    lemma_text_order_is_total();
    a.lemma_sort_by_ensures(text_order());
    b.lemma_sort_by_ensures(text_order());
    if a.to_multiset() == b.to_multiset() {
        vstd::seq_lib::lemma_sorted_unique(in_order(a), in_order(b), text_order());
    }
}

/// Whether two texts are equal.
pub fn same_text(a: &str, b: &str) -> (same: bool)
    ensures
        same == (a@ == b@),
{
    let left: &[u8] = a.as_bytes();
    let right: &[u8] = b.as_bytes();
    if left.len() != right.len() {
        return false;
    }
    let mut i: usize = 0;
    while i < left.len()
        invariant
            left@ == vstd::utf8::encode_utf8(a@),
            right@ == vstd::utf8::encode_utf8(b@),
            left@.len() == right@.len(),
            i <= left@.len(),
            forall|j: int| 0 <= j < i ==> left@[j] == right@[j],
        decreases left@.len() - i,
    {
        if left[i] != right[i] {
            return false;
        }
        i += 1;
    }
    proof {
        assert(left@ =~= right@);
        lemma_encoding_is_injective(a@, b@);
    }
    true
}

/// Whether `a` comes no later than `b` in the order of text.
pub fn comes_no_later(a: &str, b: &str) -> (no_later: bool)
    ensures
        no_later == text_le(a@, b@),
{
    let left: &[u8] = a.as_bytes();
    let right: &[u8] = b.as_bytes();
    let mut i: usize = 0;
    assert(left@.skip(0) =~= left@);
    assert(right@.skip(0) =~= right@);
    while i < left.len() && i < right.len()
        invariant
            left@ == vstd::utf8::encode_utf8(a@),
            right@ == vstd::utf8::encode_utf8(b@),
            i <= left@.len(),
            i <= right@.len(),
            text_le(a@, b@) == bytes_le(left@.skip(i as int), right@.skip(i as int)),
        decreases left@.len() - i,
    {
        if left[i] != right[i] {
            return left[i] < right[i];
        }
        assert(left@.skip(i as int).drop_first() =~= left@.skip(i + 1));
        assert(right@.skip(i as int).drop_first() =~= right@.skip(i + 1));
        i += 1;
    }
    i == left.len()
}

/// Copies of the names, in ascending order.
pub fn sorted_copy(names: &[String]) -> (sorted: Vec<String>)
    ensures
        texts(sorted@) == in_order(texts(names@)),
{
    let mut sorted: Vec<String> = Vec::new();
    let ghost all: Seq<Seq<char>> = texts(names@);
    let mut i: usize = 0;
    proof {
        lemma_text_order_is_total();
        assert(all.take(0) =~= texts(sorted@));
    }
    while i < names.len()
        invariant
            i <= names@.len(),
            all == texts(names@),
            vstd::relations::total_ordering(text_order()),
            vstd::relations::sorted_by(texts(sorted@), text_order()),
            texts(sorted@).to_multiset() == all.take(i as int).to_multiset(),
        decreases names@.len() - i,
    {
        let ghost before: Seq<Seq<char>> = texts(sorted@);
        let mut place: usize = sorted.len();
        while place > 0 && !comes_no_later(sorted[place - 1].as_str(), names[i].as_str())
            invariant
                i < names@.len(),
                all == texts(names@),
                before == texts(sorted@),
                place <= sorted@.len(),
                vstd::relations::total_ordering(text_order()),
                forall|k: int|
                    place <= k < before.len() ==> #[trigger] text_le(all[i as int], before[k]),
            decreases place,
        {
            proof {
                let order = text_order();
                assert(order(all[i as int], before[place - 1]) || order(
                    before[place - 1],
                    all[i as int],
                ));
            }
            place -= 1;
        }
        sorted.insert(place, names[i].clone());
        proof {
            let order = text_order();
            let added = all[i as int];
            let after = texts(sorted@);
            assert(after =~= before.insert(place as int, added));
            assert forall|j: int, k: int| 0 <= j < k < after.len() implies #[trigger] order(
                after[j],
                after[k],
            ) by {
                if j < place && k == place {
                    if j < place - 1 {
                        assert(order(before[j], before[place - 1]));
                    }
                    assert(order(before[place - 1], added));
                } else if j == place {
                    assert(text_le(added, before[k - 1]));
                } else {
                    let old_j = if j < place { j } else { j - 1 };
                    let old_k = if k < place { k } else { k - 1 };
                    assert(order(before[old_j], before[old_k]));
                }
            }
            vstd::seq_lib::to_multiset_insert(before, place as int, added);
            vstd::seq_lib::to_multiset_build(all.take(i as int), added);
            assert(all.take(i as int).push(added) =~= all.take(i + 1));
        }
        i += 1;
    }
    proof {
        assert(all.take(i as int) =~= all);
        all.lemma_sort_by_ensures(text_order());
        vstd::seq_lib::lemma_sorted_unique(texts(sorted@), in_order(all), text_order());
    }
    sorted
}

/// The names with a comma between neighbours.
pub fn join_with_commas(names: &[String]) -> (joined: String)
    ensures
        joined@ == comma_joined(texts(names@)),
{
    let mut joined: String = String::new();
    if names.len() == 0 {
        return joined;
    }
    let ghost all: Seq<Seq<char>> = texts(names@);
    joined.append(names[0].as_str());
    let mut i: usize = 1;
    proof {
        reveal_strlit(",");
        assert(","@ =~= seq![',']);
        assert(all.skip(1) =~= all.drop_first());
        assert(joined@ =~= all[0]);
    }
    while i < names.len()
        invariant
            1 <= i <= names@.len(),
            all == texts(names@),
            ","@ == seq![','],
            joined@ + comma_led(all.skip(i as int)) == comma_joined(all),
        decreases names@.len() - i,
    {
        let ghost before: Seq<char> = joined@;
        joined.append(",");
        joined.append(names[i].as_str());
        proof {
            assert(all.skip(i as int).drop_first() =~= all.skip(i + 1));
            assert(joined@ + comma_led(all.skip(i + 1)) =~= before + comma_led(all.skip(i as int)));
        }
        i += 1;
    }
    assert(joined@ + comma_led(all.skip(i as int)) =~= joined@);
    joined
}

/// Two texts cut at their first comma: equal wholes have equal pieces.
proof fn lemma_cut_at_first_comma(a: Seq<char>, x: Seq<char>, b: Seq<char>, y: Seq<char>)
    requires
        a + x == b + y,
        !a.contains(','),
        !b.contains(','),
        x.len() > 0 ==> x[0] == ',',
        y.len() > 0 ==> y[0] == ',',
    ensures
        a == b,
        x == y,
{
    let whole = a + x;
    if a.len() < b.len() {
        assert(whole[a.len() as int] == x[0]);
        assert(whole[a.len() as int] == b[a.len() as int]);
    }
    if b.len() < a.len() {
        assert(whole[b.len() as int] == y[0]);
        assert(whole[b.len() as int] == a[b.len() as int]);
    }
    assert(a =~= whole.take(a.len() as int));
    assert(b =~= whole.take(a.len() as int));
    assert(x =~= whole.skip(a.len() as int));
    assert(y =~= whole.skip(a.len() as int));
}

/// The names can be read back from their comma-led text where none holds a comma.
proof fn lemma_comma_led_is_injective(a: Seq<Seq<char>>, b: Seq<Seq<char>>)
    requires
        comma_led(a) == comma_led(b),
        forall|i: int| 0 <= i < a.len() ==> !(#[trigger] a[i]).contains(','),
        forall|i: int| 0 <= i < b.len() ==> !(#[trigger] b[i]).contains(','),
    ensures
        a == b,
    decreases a.len(),
{
    if a.len() > 0 && b.len() > 0 {
        let x = comma_led(a.drop_first());
        let y = comma_led(b.drop_first());
        assert(a[0] + x =~= comma_led(a).drop_first());
        assert(b[0] + y =~= comma_led(b).drop_first());
        lemma_cut_at_first_comma(a[0], x, b[0], y);
        lemma_comma_led_is_injective(a.drop_first(), b.drop_first());
        assert(a =~= seq![a[0]] + a.drop_first());
        assert(b =~= seq![b[0]] + b.drop_first());
    } else {
        assert(a.len() > 0 ==> comma_led(a).len() > 0);
        assert(b.len() > 0 ==> comma_led(b).len() > 0);
        assert(a =~= b);
    }
}

/// The names can be read back from their joined text where none holds a comma, save that no
/// name at all and one empty name join to the same, empty text.
pub proof fn lemma_comma_joined_is_injective(a: Seq<Seq<char>>, b: Seq<Seq<char>>)
    requires
        comma_joined(a) == comma_joined(b),
        forall|i: int| 0 <= i < a.len() ==> !(#[trigger] a[i]).contains(','),
        forall|i: int| 0 <= i < b.len() ==> !(#[trigger] b[i]).contains(','),
    ensures
        a == b || {
            &&& a.len() + b.len() == 1
            &&& (a + b)[0].len() == 0
        },
{
    if a.len() > 0 && b.len() > 0 {
        lemma_cut_at_first_comma(
            a[0],
            comma_led(a.drop_first()),
            b[0],
            comma_led(b.drop_first()),
        );
        lemma_comma_led_is_injective(a.drop_first(), b.drop_first());
        assert(a =~= seq![a[0]] + a.drop_first());
        assert(b =~= seq![b[0]] + b.drop_first());
    } else if a.len() > 0 {
        assert(comma_joined(a).len() == 0);
        assert(a.drop_first().len() > 0 ==> comma_led(a.drop_first()).len() > 0);
    } else if b.len() > 0 {
        assert(comma_joined(b).len() == 0);
        assert(b.drop_first().len() > 0 ==> comma_led(b.drop_first()).len() > 0);
    } else {
        assert(a =~= b);
    }
}

/// The text of each string is that string's own, in the same place.
pub proof fn law_texts_are_those_of_the_strings(names: Seq<String>)
    ensures
        texts(names).len() == names.len(),
        forall|i: int| 0 <= i < names.len() ==> #[trigger] texts(names)[i] == names[i]@,
{
}

/// The first difference decides the order of two texts: one comes no later than another when its
/// bytes begin the other's, or when the first byte in which they differ is the smaller one.
pub proof fn law_the_first_difference_decides(a: Seq<char>, b: Seq<char>, place: int)
    requires
        ({
            let (left, right) = (vstd::utf8::encode_utf8(a), vstd::utf8::encode_utf8(b));
            &&& 0 <= place <= left.len()
            &&& place <= right.len()
            &&& left.take(place) == right.take(place)
            &&& place < left.len() && place < right.len() ==> left[place] != right[place]
        }),
    ensures
        ({
            let (left, right) = (vstd::utf8::encode_utf8(a), vstd::utf8::encode_utf8(b));
            text_le(a, b) <==> place == left.len() || (place < right.len() && left[place]
                < right[place])
        }),
{
    lemma_first_difference(vstd::utf8::encode_utf8(a), vstd::utf8::encode_utf8(b), place);
}

proof fn lemma_first_difference(a: Seq<u8>, b: Seq<u8>, place: int)
    requires
        0 <= place <= a.len(),
        place <= b.len(),
        a.take(place) == b.take(place),
        place < a.len() && place < b.len() ==> a[place] != b[place],
    ensures
        bytes_le(a, b) <==> place == a.len() || (place < b.len() && a[place] < b[place]),
    decreases place,
{
    if place > 0 {
        let (x, y) = (a.drop_first(), b.drop_first());
        assert(a[0] == a.take(place)[0]);
        assert(b[0] == b.take(place)[0]);
        assert(x.take(place - 1) =~= a.take(place).drop_first());
        assert(y.take(place - 1) =~= b.take(place).drop_first());
        lemma_first_difference(x, y, place - 1);
    }
}

/// Sorting loses, adds and changes no name, and puts none behind one that comes later.
pub proof fn law_sorted_names_are_the_same_names_in_order(names: Seq<Seq<char>>, i: int, j: int)
    ensures
        in_order(names).to_multiset() == names.to_multiset(),
        in_order(names).len() == names.len(),
        0 <= i < j < names.len() ==> text_le(in_order(names)[i], in_order(names)[j]),
{
    lemma_text_order_is_total();
    names.lemma_sort_by_ensures(text_order());
    let order = text_order();
    names.to_multiset_ensures();
    in_order(names).to_multiset_ensures();
    if 0 <= i < j < names.len() {
        assert(order(in_order(names)[i], in_order(names)[j]));
    }
}

proof fn lemma_comma_led_grows(names: Seq<Seq<char>>, name: Seq<char>)
    ensures
        comma_led(names.push(name)) == comma_led(names) + seq![','] + name,
    decreases names.len(),
{
    reveal_with_fuel(comma_led, 2);
    let more = names.push(name);
    if names.len() == 0 {
        assert(more.drop_first() =~= seq![]);
        assert(comma_led(more) =~= comma_led(names) + seq![','] + name);
    } else {
        assert(more.drop_first() =~= names.drop_first().push(name));
        lemma_comma_led_grows(names.drop_first(), name);
        assert(comma_led(more) =~= comma_led(names) + seq![','] + name);
    }
}

/// Joining puts one comma between neighbours and nothing else: no name joins to nothing, one name
/// to itself, and each further name follows a comma.
pub proof fn law_names_are_joined_by_single_commas(names: Seq<Seq<char>>, name: Seq<char>)
    ensures
        comma_joined(Seq::<Seq<char>>::empty()) == Seq::<char>::empty(),
        comma_joined(seq![name]) == name,
        names.len() > 0 ==> comma_joined(names.push(name)) == comma_joined(names) + seq![',']
            + name,
{
    assert(seq![name].drop_first() =~= seq![]);
    assert(comma_joined(seq![name]) =~= name);
    if names.len() > 0 {
        assert(names.push(name).drop_first() =~= names.drop_first().push(name));
        lemma_comma_led_grows(names.drop_first(), name);
        assert(comma_joined(names.push(name)) =~= comma_joined(names) + seq![','] + name);
    }
}

} // verus!

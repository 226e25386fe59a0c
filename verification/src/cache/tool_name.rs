//! Tool names, written so that a list of them can be told from every other list.
use vstd::prelude::*;
use vstd::string::*;

verus! {

/// The letter that stands, after a backslash, for a character that means something else in a
/// list of names: the backslash itself, the comma, and the unit separator.
pub open spec fn letter_for(c: char) -> Option<char> {
    if c == '\\' {
        Some('\\')
    } else if c == ',' {
        Some('c')
    } else if c == '\u{1f}' {
        Some('u')
    } else {
        None
    }
}

/// A character as it is written in a list of names.
pub open spec fn written_char(c: char) -> Seq<char> {
    match letter_for(c) {
        Some(letter) => seq!['\\', letter],
        None => seq![c],
    }
}

/// The characters as they are written in a list of names.
pub open spec fn written_chars(name: Seq<char>) -> Seq<char>
    decreases name.len(),
{
    if name.len() == 0 {
        seq![]
    } else {
        written_char(name[0]) + written_chars(name.drop_first())
    }
}

/// A name as it is written in a list of names: most names as they are, and the empty name so
/// that it is seen.
pub open spec fn written(name: Seq<char>) -> Seq<char> {
    if name.len() == 0 {
        seq!['\\', 'e']
    } else {
        written_chars(name)
    }
}

/// The names as they are written.
pub open spec fn all_written(names: Seq<Seq<char>>) -> Seq<Seq<char>> {
    names.map_values(|name: Seq<char>| written(name))
}

/// `String::push`: the character joins the end of the string.
pub assume_specification[ String::push ](string: &mut String, ch: char)
    ensures
        final(string)@ == old(string)@.push(ch),
;

/// Writes a name for a list of names.
pub fn write_name(name: &str) -> (text: String)
    ensures
        text@ == written(name@),
{
    if name.is_empty() {
        proof {
            reveal_strlit("\\e");
            assert("\\e"@ =~= seq!['\\', 'e']);
        }
        return "\\e".to_string();
    }
    let mut text: String = String::new();
    assert(name@.skip(0) =~= name@);
    for c in iter: name.chars()
        invariant
            iter.seq() == name@,
            text@ + written_chars(name@.skip(iter.index() as int)) == written_chars(name@),
    {
        let ghost before: Seq<char> = text@;
        let ghost rest: Seq<char> = name@.skip(iter.index() as int);
        assert(rest[0] == c);
        assert(rest.drop_first() =~= name@.skip(iter.index() + 1));
        if c == '\\' {
            text.push('\\');
            text.push('\\');
        } else if c == ',' {
            text.push('\\');
            text.push('c');
        } else if c == '\u{1f}' {
            text.push('\\');
            text.push('u');
        } else {
            text.push(c);
        }
        assert(text@ =~= before + written_char(c));
        assert(text@ + written_chars(rest.drop_first()) =~= before + written_chars(rest));
    }
    assert(text@ + written_chars(name@.skip(name@.len() as int)) =~= text@);
    text
}

/// What is written can be read back, character by character.
proof fn lemma_written_chars_is_injective(a: Seq<char>, b: Seq<char>)
    requires
        written_chars(a) == written_chars(b),
    ensures
        a == b,
    decreases a.len(),
{
    if a.len() > 0 && b.len() > 0 {
        let whole = written_chars(a);
        let (x, y) = (written_char(a[0]), written_char(b[0]));
        assert(whole[0] == x[0]);
        assert(whole[0] == y[0]);
        assert(x.len() == 2 ==> whole[1] == x[1]);
        assert(y.len() == 2 ==> whole[1] == y[1]);
        assert(a[0] == b[0]);
        assert(written_chars(a.drop_first()) =~= whole.skip(x.len() as int));
        assert(written_chars(b.drop_first()) =~= whole.skip(x.len() as int));
        lemma_written_chars_is_injective(a.drop_first(), b.drop_first());
        assert(a =~= seq![a[0]] + a.drop_first());
        assert(b =~= seq![b[0]] + b.drop_first());
    } else {
        assert(a.len() > 0 ==> written_chars(a).len() > 0);
        assert(b.len() > 0 ==> written_chars(b).len() > 0);
        assert(a =~= b);
    }
}

/// A name can be read back from how it is written.
pub proof fn lemma_written_is_injective(a: Seq<char>, b: Seq<char>)
    requires
        written(a) == written(b),
    ensures
        a == b,
{
    if a.len() > 0 && b.len() > 0 {
        lemma_written_chars_is_injective(a, b);
    } else if a.len() > 0 {
        assert(written(a)[0] == written_char(a[0])[0]);
        assert(written(a)[1] == 'e');
        if letter_for(a[0]) is Some {
            assert(written(a)[1] == written_char(a[0])[1]);
        }
    } else if b.len() > 0 {
        assert(written(b)[0] == written_char(b[0])[0]);
        assert(written(b)[1] == 'e');
        if letter_for(b[0]) is Some {
            assert(written(b)[1] == written_char(b[0])[1]);
        }
    } else {
        assert(a =~= b);
    }
}

/// No comma and no unit separator is ever written.
proof fn lemma_written_chars_are_plain(name: Seq<char>)
    ensures
        !written_chars(name).contains(','),
        !written_chars(name).contains('\u{1f}'),
    decreases name.len(),
{
    if name.len() > 0 {
        let head = written_char(name[0]);
        let rest = written_chars(name.drop_first());
        let whole = written_chars(name);
        lemma_written_chars_are_plain(name.drop_first());
        assert forall|i: int| 0 <= i < whole.len() implies whole[i] != ',' && whole[i]
            != '\u{1f}' by {
            if i < head.len() {
                assert(whole[i] == head[i]);
            } else {
                assert(whole[i] == rest[i - head.len()]);
            }
        }
    }
}

/// A written name is never empty, and holds neither a comma nor a unit separator.
pub proof fn lemma_written_is_plain(name: Seq<char>)
    ensures
        written(name).len() > 0,
        !written(name).contains(','),
        !written(name).contains('\u{1f}'),
{
    lemma_written_chars_are_plain(name);
}

proof fn lemma_written_chars_concatenate(a: Seq<char>, b: Seq<char>)
    ensures
        written_chars(a + b) == written_chars(a) + written_chars(b),
    decreases a.len(),
{
    if a.len() == 0 {
        assert(a + b =~= b);
        assert(written_chars(a) + written_chars(b) =~= written_chars(b));
    } else {
        assert((a + b).drop_first() =~= a.drop_first() + b);
        lemma_written_chars_concatenate(a.drop_first(), b);
        assert(written_chars(a + b) =~= written_chars(a) + written_chars(b));
    }
}

/// Names are written character by character, each as it is but for the three that a list uses
/// itself, which are a backslash and a letter; the empty name is a backslash and a letter too.
pub proof fn law_names_are_written_character_by_character(a: Seq<char>, b: Seq<char>, c: char)
    ensures
        a.len() > 0 && b.len() > 0 ==> written(a + b) == written(a) + written(b),
        c != '\\' && c != ',' && c != '\u{1f}' ==> written(seq![c]) == seq![c],
        written(seq!['\\']) == seq!['\\', '\\'],
        written(seq![',']) == seq!['\\', 'c'],
        written(seq!['\u{1f}']) == seq!['\\', 'u'],
        written(Seq::<char>::empty()) == seq!['\\', 'e'],
{
    lemma_written_chars_concatenate(a, b);
    lemma_one_written_char(c);
    lemma_one_written_char('\\');
    lemma_one_written_char(',');
    lemma_one_written_char('\u{1f}');
}

proof fn lemma_one_written_char(c: char)
    ensures
        written(seq![c]) == written_char(c),
{
    reveal_with_fuel(written_chars, 2);
    assert(seq![c].drop_first() =~= seq![]);
    assert(written(seq![c]) =~= written_char(c));
}

/// Most names are written as they are.
pub proof fn law_an_ordinary_name_is_written_as_it_is(name: Seq<char>)
    requires
        name.len() > 0,
        !name.contains('\\'),
        !name.contains(','),
        !name.contains('\u{1f}'),
    ensures
        written(name) == name,
{
    lemma_ordinary_chars(name);
}

proof fn lemma_ordinary_chars(name: Seq<char>)
    requires
        !name.contains('\\'),
        !name.contains(','),
        !name.contains('\u{1f}'),
    ensures
        written_chars(name) == name,
    decreases name.len(),
{
    if name.len() > 0 {
        let rest = name.drop_first();
        assert(name.contains(name[0]));
        assert forall|c: char| rest.contains(c) implies name.contains(c) by {
            let i = rest.index_of(c);
            assert(name[i + 1] == c);
        }
        lemma_ordinary_chars(rest);
        assert(written_chars(name) =~= name);
    } else {
        assert(written_chars(name) =~= name);
    }
}

/// Each name of a list is written on its own, in its place.
pub proof fn law_each_name_is_written_on_its_own(names: Seq<Seq<char>>)
    ensures
        all_written(names).len() == names.len(),
        forall|i: int|
            0 <= i < names.len() ==> #[trigger] all_written(names)[i] == written(names[i]),
{
}

} // verus!

//! The identity of one cacheable context.
use crate::cache::tool_name;
use crate::text;
use vstd::prelude::*;
use vstd::string::*;

verus! {

/// What a [`CacheKey`] holds.
pub struct CacheKeyView {
    /// Model the cache was created against.
    pub model: Seq<char>,
    /// Agent whose instruction the cache holds.
    pub agent: Seq<char>,
    /// Canonical digest of the instruction and tool material.
    pub material: Seq<char>,
}

/// The character between the instruction and the tool names: the ASCII unit separator.
pub open spec fn unit_separator() -> char {
    '\u{1f}'
}

/// The list of tool names: sorted, each written so that it cannot be taken for another, with
/// commas between them.
pub open spec fn tool_list(tool_names: Seq<Seq<char>>) -> Seq<char> {
    text::comma_joined(tool_name::all_written(text::in_order(tool_names)))
}

/// The canonical digest of an instruction and the names of the tools offered with it:
/// readable rather than hashed, and blind to the order of the tools.
pub open spec fn material_of(instruction: Seq<char>, tool_names: Seq<Seq<char>>) -> Seq<char> {
    instruction + seq![unit_separator()] + tool_list(tool_names)
}

/// The key of a context.
pub open spec fn key_of(
    model: Seq<char>,
    agent: Seq<char>,
    instruction: Seq<char>,
    tool_names: Seq<Seq<char>>,
) -> CacheKeyView {
    CacheKeyView { model, agent, material: material_of(instruction, tool_names) }
}

/// Identifies one cacheable context.
///
/// A provider cache is only valid for the material it was created from. Keying by the
/// model, the agent, and a digest of that material means a cache is never attached to a
/// request built from something else.
#[derive(Debug, Hash)]
pub struct CacheKey {
    model: String,
    agent: String,
    material: String,
}

impl View for CacheKey {
    type V = CacheKeyView;

    closed spec fn view(&self) -> CacheKeyView {
        CacheKeyView { model: self.model@, agent: self.agent@, material: self.material@ }
    }
}

impl Clone for CacheKey {
    fn clone(&self) -> (copy: Self)
        ensures
            copy == *self,
    {
        CacheKey {
            model: self.model.clone(),
            agent: self.agent.clone(),
            material: self.material.clone(),
        }
    }
}

impl PartialEq for CacheKey {
    fn eq(&self, other: &Self) -> (same: bool) {
        self.model == other.model && self.agent == other.agent && self.material == other.material
    }
}

impl Eq for CacheKey {

}

impl vstd::std_specs::cmp::PartialEqSpecImpl for CacheKey {
    open spec fn obeys_eq_spec() -> bool {
        true
    }

    open spec fn eq_spec(&self, other: &Self) -> bool {
        self@ == other@
    }
}

impl CacheKey {
    /// Builds a key from the exact material a cache will be created from.
    pub fn new(model: &str, agent: &str, instruction: &str, tool_names: &[String]) -> (key: Self)
        ensures
            key@ == key_of(model@, agent@, instruction@, text::texts(tool_names@)),
    {
        let tools: Vec<String> = text::sorted_copy(tool_names);
        let mut written: Vec<String> = Vec::new();
        let mut i: usize = 0;
        while i < tools.len()
            invariant
                i <= tools@.len(),
                text::texts(written@) == tool_name::all_written(
                    text::texts(tools@).take(i as int),
                ),
            decreases tools@.len() - i,
        {
            let ghost before: Seq<Seq<char>> = text::texts(written@);
            let ghost name: Seq<char> = text::texts(tools@)[i as int];
            written.push(tool_name::write_name(tools[i].as_str()));
            proof {
                assert(text::texts(written@) =~= before.push(tool_name::written(name)));
                assert(text::texts(tools@).take(i + 1) =~= text::texts(tools@).take(i as int).push(
                    name,
                ));
                assert(tool_name::all_written(text::texts(tools@).take(i + 1)) =~= before.push(
                    tool_name::written(name),
                ));
            }
            i += 1;
        }
        assert(text::texts(tools@).take(i as int) =~= text::texts(tools@));
        let mut material: String = instruction.to_string();
        material.append("\u{1f}");
        let joined: String = text::join_with_commas(written.as_slice());
        material.append(joined.as_str());
        proof {
            reveal_strlit("\u{1f}");
            assert("\u{1f}"@ =~= seq![unit_separator()]);
        }
        CacheKey { model: model.to_string(), agent: agent.to_string(), material }
    }
}

/// Tool order cannot change a key: the same names, in any order, give the same key.
pub proof fn law_tool_order_does_not_change_identity(
    model: Seq<char>,
    agent: Seq<char>,
    instruction: Seq<char>,
    tool_names: Seq<Seq<char>>,
    reordered: Seq<Seq<char>>,
)
    requires
        tool_names.to_multiset() == reordered.to_multiset(),
    ensures
        key_of(model, agent, instruction, tool_names) == key_of(
            model,
            agent,
            instruction,
            reordered,
        ),
{
    text::lemma_in_order_depends_on_names(tool_names, reordered);
}

/// Different models never share a key, and neither do different agents.
pub proof fn law_model_and_agent_are_part_of_identity(
    model: Seq<char>,
    agent: Seq<char>,
    instruction: Seq<char>,
    tool_names: Seq<Seq<char>>,
    other_model: Seq<char>,
    other_agent: Seq<char>,
    other_instruction: Seq<char>,
    other_tool_names: Seq<Seq<char>>,
)
    requires
        model != other_model || agent != other_agent,
    ensures
        key_of(model, agent, instruction, tool_names) != key_of(
            other_model,
            other_agent,
            other_instruction,
            other_tool_names,
        ),
{
}

/// No unit separator stands in the text that follows the commas.
proof fn lemma_comma_led_has_no_separator(names: Seq<Seq<char>>)
    requires
        forall|i: int| 0 <= i < names.len() ==> !(#[trigger] names[i]).contains(unit_separator()),
    ensures
        !text::comma_led(names).contains(unit_separator()),
    decreases names.len(),
{
    if names.len() > 0 {
        let rest = text::comma_led(names.drop_first());
        let whole = text::comma_led(names);
        lemma_comma_led_has_no_separator(names.drop_first());
        assert(!names[0].contains(unit_separator()));
        assert forall|i: int| 0 <= i < whole.len() implies whole[i] != unit_separator() by {
            if i == 0 {
            } else if i <= names[0].len() {
                assert(whole[i] == names[0][i - 1]);
            } else {
                assert(whole[i] == rest[i - 1 - names[0].len()]);
            }
        }
    }
}

/// A list of tool names holds no unit separator.
proof fn lemma_tool_list_has_no_separator(tool_names: Seq<Seq<char>>)
    ensures
        !tool_list(tool_names).contains(unit_separator()),
{
    let sorted = text::in_order(tool_names);
    let names = tool_name::all_written(sorted);
    assert forall|i: int| 0 <= i < names.len() implies !(#[trigger] names[i]).contains(
        unit_separator(),
    ) by {
        tool_name::lemma_written_is_plain(sorted[i]);
    }
    if names.len() > 0 {
        let rest = text::comma_led(names.drop_first());
        let whole = tool_list(tool_names);
        lemma_comma_led_has_no_separator(names.drop_first());
        assert(!names[0].contains(unit_separator()));
        assert forall|i: int| 0 <= i < whole.len() implies whole[i] != unit_separator() by {
            if i < names[0].len() {
                assert(whole[i] == names[0][i]);
            } else {
                assert(whole[i] == rest[i - names[0].len()]);
            }
        }
    }
}

/// Two texts cut at their last unit separator: equal wholes have equal pieces.
proof fn lemma_cut_at_last_separator(a: Seq<char>, x: Seq<char>, b: Seq<char>, y: Seq<char>)
    requires
        a + seq![unit_separator()] + x == b + seq![unit_separator()] + y,
        !x.contains(unit_separator()),
        !y.contains(unit_separator()),
    ensures
        a == b,
        x == y,
{
    let left = a + seq![unit_separator()] + x;
    let right = b + seq![unit_separator()] + y;
    assert(left.len() == a.len() + 1 + x.len());
    assert(right.len() == b.len() + 1 + y.len());
    assert(left[a.len() as int] == unit_separator());
    assert(right[b.len() as int] == unit_separator());
    if a.len() < b.len() {
        assert(left[b.len() as int] == x[b.len() - a.len() - 1]);
    }
    if b.len() < a.len() {
        assert(right[a.len() as int] == y[a.len() - b.len() - 1]);
    }
    assert(a =~= left.take(a.len() as int));
    assert(b =~= right.take(a.len() as int));
    assert(x =~= left.skip(a.len() + 1int));
    assert(y =~= right.skip(a.len() + 1int));
}

/// Equal lists of tool names are lists of the same names.
proof fn lemma_tool_list_is_injective(a: Seq<Seq<char>>, b: Seq<Seq<char>>)
    requires
        tool_list(a) == tool_list(b),
    ensures
        a.to_multiset() == b.to_multiset(),
{
    let (x, y) = (text::in_order(a), text::in_order(b));
    let (written_x, written_y) = (tool_name::all_written(x), tool_name::all_written(y));
    assert forall|i: int| 0 <= i < written_x.len() implies !(#[trigger] written_x[i]).contains(
        ',',
    ) && written_x[i].len() > 0 by {
        tool_name::lemma_written_is_plain(x[i]);
    }
    assert forall|i: int| 0 <= i < written_y.len() implies !(#[trigger] written_y[i]).contains(
        ',',
    ) && written_y[i].len() > 0 by {
        tool_name::lemma_written_is_plain(y[i]);
    }
    text::lemma_comma_joined_is_injective(written_x, written_y);
    if written_x != written_y {
        let either = written_x + written_y;
        if written_x.len() == 1 {
            assert(either[0] == written_x[0]);
        } else {
            assert(either[0] == written_y[0]);
        }
    }
    assert(x.len() == written_x.len());
    assert(y.len() == written_y.len());
    assert forall|i: int| 0 <= i < x.len() implies x[i] == y[i] by {
        assert(written_x[i] == written_y[i]);
        tool_name::lemma_written_is_injective(x[i], y[i]);
    }
    assert(x =~= y);
    text::lemma_in_order_depends_on_names(a, b);
}

/// Changed instruction material changes the key: with the same tools, another instruction
/// never has the same key.
pub proof fn law_changed_instruction_changes_identity(
    model: Seq<char>,
    agent: Seq<char>,
    instruction: Seq<char>,
    other_instruction: Seq<char>,
    tool_names: Seq<Seq<char>>,
)
    requires
        instruction != other_instruction,
    ensures
        key_of(model, agent, instruction, tool_names) != key_of(
            model,
            agent,
            other_instruction,
            tool_names,
        ),
{
    let left = material_of(instruction, tool_names);
    let right = material_of(other_instruction, tool_names);
    let tail = seq![unit_separator()] + tool_list(tool_names);
    assert(left =~= instruction + tail);
    assert(right =~= other_instruction + tail);
    if left == right {
        assert(left.len() == instruction.len() + tail.len());
        assert(right.len() == other_instruction.len() + tail.len());
        assert(instruction.len() == other_instruction.len());
        assert(instruction =~= left.take(instruction.len() as int));
        assert(other_instruction =~= right.take(instruction.len() as int));
    }
}

/// A changed set of tools changes the key: with the same instruction, other tool names never
/// have the same key.
pub proof fn law_changed_tools_change_identity(
    model: Seq<char>,
    agent: Seq<char>,
    instruction: Seq<char>,
    tool_names: Seq<Seq<char>>,
    other_tool_names: Seq<Seq<char>>,
)
    requires
        tool_names.to_multiset() != other_tool_names.to_multiset(),
    ensures
        key_of(model, agent, instruction, tool_names) != key_of(
            model,
            agent,
            instruction,
            other_tool_names,
        ),
{
    if key_of(model, agent, instruction, tool_names) == key_of(
        model,
        agent,
        instruction,
        other_tool_names,
    ) {
        law_equal_keys_mean_equal_contexts(
            model,
            agent,
            instruction,
            tool_names,
            model,
            agent,
            instruction,
            other_tool_names,
        );
    }
}

/// A key identifies its context: equal keys come from the same model, the same agent, the
/// same instruction and the same tool names, so a cache is never attached to a request built
/// from something else.
pub proof fn law_equal_keys_mean_equal_contexts(
    model: Seq<char>,
    agent: Seq<char>,
    instruction: Seq<char>,
    tool_names: Seq<Seq<char>>,
    other_model: Seq<char>,
    other_agent: Seq<char>,
    other_instruction: Seq<char>,
    other_tool_names: Seq<Seq<char>>,
)
    requires
        key_of(model, agent, instruction, tool_names) == key_of(
            other_model,
            other_agent,
            other_instruction,
            other_tool_names,
        ),
    ensures
        model == other_model,
        agent == other_agent,
        instruction == other_instruction,
        tool_names.to_multiset() == other_tool_names.to_multiset(),
{
    lemma_tool_list_has_no_separator(tool_names);
    lemma_tool_list_has_no_separator(other_tool_names);
    lemma_cut_at_last_separator(
        instruction,
        tool_list(tool_names),
        other_instruction,
        tool_list(other_tool_names),
    );
    lemma_tool_list_is_injective(tool_names, other_tool_names);
}

/// A key is readable: it shows the model, the agent, and the instruction as they are, and behind
/// a unit separator the names of the tools in their order, with commas between them. Ordinary
/// names stand there as they are.
pub proof fn law_a_key_is_readable(
    model: Seq<char>,
    agent: Seq<char>,
    instruction: Seq<char>,
    tool_names: Seq<Seq<char>>,
)
    ensures
        key_of(model, agent, instruction, tool_names).model == model,
        key_of(model, agent, instruction, tool_names).agent == agent,
        key_of(model, agent, instruction, tool_names).material == instruction + seq!['\u{1f}']
            + text::comma_joined(
            Seq::new(
                tool_names.len(),
                |i: int| tool_name::written(text::in_order(tool_names)[i]),
            ),
        ),
        (forall|i: int|
            0 <= i < tool_names.len() ==> {
                &&& (#[trigger] tool_names[i]).len() > 0
                &&& !tool_names[i].contains('\\')
                &&& !tool_names[i].contains(',')
                &&& !tool_names[i].contains('\u{1f}')
            }) ==> key_of(model, agent, instruction, tool_names).material == instruction
            + seq!['\u{1f}'] + text::comma_joined(text::in_order(tool_names)),
{
    let sorted = text::in_order(tool_names);
    text::lemma_in_order_depends_on_names(tool_names, tool_names);
    tool_names.to_multiset_ensures();
    sorted.to_multiset_ensures();
    let names = Seq::new(tool_names.len(), |i: int| tool_name::written(sorted[i]));
    assert(names =~= tool_name::all_written(sorted));
    if forall|i: int|
        0 <= i < tool_names.len() ==> {
            &&& (#[trigger] tool_names[i]).len() > 0
            &&& !tool_names[i].contains('\\')
            &&& !tool_names[i].contains(',')
            &&& !tool_names[i].contains('\u{1f}')
        } {
        assert forall|i: int| 0 <= i < sorted.len() implies #[trigger] names[i] == sorted[i] by {
            assert(sorted.contains(sorted[i]));
            assert(sorted.to_multiset().count(sorted[i]) > 0);
            assert(tool_names.contains(sorted[i]));
            let j = tool_names.index_of(sorted[i]);
            assert(tool_names[j] == sorted[i]);
            tool_name::law_an_ordinary_name_is_written_as_it_is(sorted[i]);
        }
        assert(names =~= sorted);
    }
}

} // verus!

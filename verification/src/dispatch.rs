//! The commands to run after a record changed, and the memory that keeps
//! them from being run twice for one address.

use crate::address::{AddressView, IpAddress};
use crate::record::RecordSpec;
use crate::text::{
    chars_of, replace_chars, replace_seq, split_chars, split_seq, string_of, views,
};
use vstd::prelude::*;

verus! {

/// What stands in a template where the new address is to be put.
pub open spec fn placeholder() -> Seq<char> {
    "${IP_ADDRESS}"@
}

/// The last address for which the commands were handed out, if any.
#[derive(Clone, Copy, Debug)]
pub struct DedupState {
    pub last_dispatched_address: Option<IpAddress>,
}

impl View for DedupState {
    type V = Option<AddressView>;

    open spec fn view(&self) -> Option<AddressView> {
        match self.last_dispatched_address {
            Some(address) => Some(address@),
            None => None,
        }
    }
}

/// The commands that a template yields for an address: the template with
/// the address in every place of the placeholder, cut at the semicolons.
pub open spec fn commands_for(template: Seq<char>, address: AddressView) -> Seq<Seq<char>> {
    split_seq(replace_seq(template, placeholder(), address.text()), ';')
}

/// The commands to run for a new address: none without a template, none for
/// the address that was handled last, and else those of the template.
pub open spec fn dispatched(
    template: Option<Seq<char>>,
    last: Option<AddressView>,
    address: AddressView,
) -> Seq<Seq<char>> {
    match template {
        None => seq![],
        Some(t) => if last == Some(address) {
            seq![]
        } else {
            commands_for(t, address)
        },
    }
}

/// What is remembered after a new address: without a template what was
/// remembered before, and else the new address.
pub open spec fn remembered(
    template: Option<Seq<char>>,
    last: Option<AddressView>,
    address: AddressView,
) -> Option<AddressView> {
    match template {
        None => last,
        Some(_) => Some(address),
    }
}

impl DedupState {
    /// A memory that holds nothing yet.
    pub fn new() -> (state: DedupState)
        ensures
            state@ is None,
    {
        DedupState { last_dispatched_address: None }
    }
}

/// A template with the address in every place of the placeholder.
pub fn substitute(template: &str, address: &IpAddress) -> (command: String)
    ensures
        command@ == replace_seq(template@, placeholder(), address@.text()),
{
    let text = address.to_text();
    let out = replace_chars(
        &chars_of(template),
        &chars_of("${IP_ADDRESS}"),
        &chars_of(text.as_str()),
    );
    string_of(&out)
}

/// Hands out the commands to run for a new address, and remembers the
/// address where the record has commands for a change. The commands are to
/// be run one after the other, each whether or not the ones before it
/// failed; whether they fail does not change what is remembered.
pub fn maybe_dispatch(spec: &RecordSpec, dedup: &mut DedupState, new_address: &IpAddress) -> (commands:
    Vec<String>)
    ensures
        commands.deep_view() == dispatched(
            spec@.ip_address_on_update_cmd,
            old(dedup)@,
            new_address@,
        ),
        final(dedup)@ == remembered(spec@.ip_address_on_update_cmd, old(dedup)@, new_address@),
{
    let mut commands: Vec<String> = Vec::new();
    let template = match &spec.ip_address_on_update_cmd {
        Some(t) => t,
        None => {
            assert(commands.deep_view() =~= seq![]);
            return commands;
        },
    };
    let seen = match &dedup.last_dispatched_address {
        Some(last) => last.same(new_address),
        None => false,
    };
    if seen {
        assert(commands.deep_view() =~= seq![]);
        return commands;
    }
    let command = substitute(template.as_str(), new_address);
    let parts = split_chars(&chars_of(command.as_str()), ';');
    let mut i: usize = 0;
    while i < parts.len()
        invariant
            i <= parts.len(),
            commands.len() == i,
            forall|k: int| 0 <= k < i ==> (#[trigger] commands@[k])@ == parts@[k]@,
        decreases parts.len() - i,
    {
        commands.push(string_of(&parts[i]));
        i += 1;
    }
    assert(commands.deep_view() =~= views(parts@));
    dedup.last_dispatched_address = Some(*new_address);
    commands
}

// ---------------------------------------------------------------------------
// What holds of every dispatch
// ---------------------------------------------------------------------------

/// A template yields at least one command for any address.
pub proof fn lemma_commands_for_is_not_empty(template: Seq<char>, address: AddressView)
    ensures
        commands_for(template, address).len() >= 1,
{
    crate::text::lemma_split_pieces_hold_no_separator(
        replace_seq(template, placeholder(), address.text()),
        ';',
    );
}

/// Two dispatches in a row for the same address hand the commands out at
/// most once: whatever was remembered before, the second hands out nothing.
/// Where the address had not been handled before the first, the first hands
/// out the commands of the template.
pub proof fn lemma_dispatch_is_idempotent(
    template: Seq<char>,
    last: Option<AddressView>,
    address: AddressView,
)
    ensures
        dispatched(
            Some(template),
            remembered(Some(template), last, address),
            address,
        ).len() == 0,
        last != Some(address) ==> dispatched(Some(template), last, address) == commands_for(
            template,
            address,
        ) && dispatched(Some(template), last, address).len() >= 1,
{
    lemma_commands_for_is_not_empty(template, address);
}

/// Only the last address is remembered: after another address came between,
/// the first is dispatched again. Of three dispatches for `a`, `b` and `a`,
/// with `b` another address than `a` and `a` not handled before, each hands
/// out the commands of the template.
pub proof fn lemma_dispatch_fires_again(
    template: Seq<char>,
    last: Option<AddressView>,
    a: AddressView,
    b: AddressView,
)
    requires
        a != b,
        last != Some(a),
    ensures
        ({
            let first = remembered(Some(template), last, a);
            let second = remembered(Some(template), first, b);
            &&& dispatched(Some(template), last, a) == commands_for(template, a)
            &&& dispatched(Some(template), first, b) == commands_for(template, b)
            &&& dispatched(Some(template), second, a) == commands_for(template, a)
            &&& commands_for(template, a).len() >= 1
            &&& commands_for(template, b).len() >= 1
        }),
{
    lemma_commands_for_is_not_empty(template, a);
    lemma_commands_for_is_not_empty(template, b);
}

} // verus!

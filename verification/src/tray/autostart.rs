//! Whether the application starts with the system, as the registry has it.

use crate::bytes;
use crate::failure::{Failure, FailureKind};
use crate::text;
use vstd::prelude::*;

verus! {

/// The registry key with what starts when the user logs in.
pub const RUN_KEY: &'static str = "Software\\Microsoft\\Windows\\CurrentVersion\\Run";

/// The name of the registry value.
pub const RUN_VALUE: &'static str = "ClipFerry";

/// Longest registry value that is read.
pub const MAX_VALUE_BYTES: usize = 65_536;

/// Whether the application starts with the system.
#[derive(Clone, Copy, Debug, PartialEq, Eq, Structural)]
pub enum AutostartState {
    Disabled,
    Enabled,
    /// Something else is started.
    Stale,
}

impl AutostartState {
    pub open spec fn spec_label(self) -> Seq<char> {
        match self {
            AutostartState::Disabled => "disabled"@,
            AutostartState::Enabled => "enabled"@,
            AutostartState::Stale => "stale"@,
        }
    }

    pub fn label(self) -> (label: &'static str)
        ensures
            label@ == self.spec_label(),
    {
        match self {
            AutostartState::Disabled => "disabled",
            AutostartState::Enabled => "enabled",
            AutostartState::Stale => "stale",
        }
    }
}

/// The command that starts an executable in the notification area.
pub open spec fn command_text(executable: Seq<char>) -> Seq<char> {
    "\""@ + executable + "\" tray"@
}

/// The command that starts an executable in the notification area.
pub fn quote_tray_command(executable: &str) -> (result: Result<String, Failure>)
    ensures
        match result {
            Ok(command) => !executable@.contains('"') && command@ == command_text(executable@),
            Err(failure) => executable@.contains('"') && failure == Failure::new(
                FailureKind::InvalidInput,
                "the executable path contains a quote",
            ),
        },
{
    let characters = text::characters(executable);
    let found: usize = text::find(characters.as_slice(), '"');
    proof {
        text::lemma_position(executable@, '"');
        if executable@.contains('"') {
            let k = choose|k: int| 0 <= k < executable@.len() && executable@[k] == '"';
            assert(executable@[k] == '"');
        }
    }
    if found < characters.len() {
        assert(executable@[found as int] == '"');
        return Err(Failure::new(FailureKind::InvalidInput, "the executable path contains a quote"));
    }
    let mut command = String::new();
    text::push_text(&mut command, "\"");
    text::push_text(&mut command, executable);
    text::push_text(&mut command, "\" tray");
    assert(command@ =~= command_text(executable@));
    Ok(command)
}

/// The code units that bytes spell, least significant byte first.
pub open spec fn units_of(data: Seq<u8>) -> Seq<u16> {
    Seq::new(data.len() / 2, |k: int| (data[2 * k] + 256 * data[2 * k + 1]) as u16)
}

/// The bytes of code units, least significant byte first.
pub open spec fn unit_bytes(units: Seq<u16>) -> Seq<u8> {
    Seq::new(
        2 * units.len(),
        |k: int|
            if k % 2 == 0 {
                (units[k / 2] % 256) as u8
            } else {
                (units[k / 2] / 256) as u8
            },
    )
}

/// The code units before the first that is zero.
pub open spec fn until_zero(units: Seq<u16>) -> Seq<u16>
    decreases units.len(),
{
    if units.len() == 0 || units[0] == 0 {
        Seq::empty()
    } else {
        seq![units[0]] + until_zero(units.skip(1))
    }
}

/// Whether a code unit is the first of two.
pub open spec fn leads(unit: u16) -> bool {
    0xd800 <= unit < 0xdc00
}

/// Whether a code unit is the second of two.
pub open spec fn trails(unit: u16) -> bool {
    0xdc00 <= unit < 0xe000
}

/// Whether code units are the UTF-16 form of a text.
pub open spec fn valid_utf16(units: Seq<u16>) -> bool
    decreases units.len(),
{
    if units.len() == 0 {
        true
    } else if leads(units[0]) {
        units.len() >= 2 && trails(units[1]) && valid_utf16(units.skip(2))
    } else {
        !trails(units[0]) && valid_utf16(units.skip(1))
    }
}

/// Whether an executable starts with the system, given the bytes of the registry value.
pub open spec fn autostart_outcome(executable: Seq<char>, stored: Option<Seq<u8>>) -> Result<
    AutostartState,
    Failure,
> {
    if executable.contains('"') {
        Err(Failure::new(FailureKind::InvalidInput, "the executable path contains a quote"))
    } else {
        match stored {
            None => Ok(AutostartState::Disabled),
            Some(data) => {
                let units = until_zero(units_of(data));
                if data.len() == 0 || data.len() > MAX_VALUE_BYTES || data.len() % 2 != 0 {
                    Ok(AutostartState::Stale)
                } else if !valid_utf16(units) {
                    Err(Failure::invalid("autostart value is not UTF-16"))
                } else if units == text::utf16(command_text(executable)) {
                    Ok(AutostartState::Enabled)
                } else {
                    Ok(AutostartState::Stale)
                }
            },
        }
    }
}

/// Whether a registry value of a length is read at all.
pub fn value_is_readable(length: u32) -> (readable: bool)
    ensures
        readable == (0 < length <= MAX_VALUE_BYTES && length % 2 == 0),
{
    length != 0 && length as usize <= MAX_VALUE_BYTES && length % 2 == 0
}

fn check_utf16(units: &[u16]) -> (valid: bool)
    ensures
        valid == valid_utf16(units@),
{
    let count: usize = units.len();
    let mut index: usize = 0;
    assert(units@.skip(0) =~= units@);
    while index < count
        invariant
            index <= count == units@.len(),
            valid_utf16(units@) == valid_utf16(units@.skip(index as int)),
        decreases units@.len() - index,
    {
        let ghost rest = units@.skip(index as int);
        let unit: u16 = units[index];
        if 0xd800 <= unit && unit < 0xdc00 {
            if count - index < 2 {
                return false;
            }
            let next: u16 = units[index + 1];
            assert(rest[1] == next);
            if !(0xdc00 <= next && next < 0xe000) {
                return false;
            }
            assert(rest.skip(2) =~= units@.skip(index + 2));
            index += 2;
        } else {
            if 0xdc00 <= unit && unit < 0xe000 {
                return false;
            }
            assert(rest.skip(1) =~= units@.skip(index + 1));
            index += 1;
        }
    }
    true
}

fn read_units(data: &[u8]) -> (units: Vec<u16>)
    ensures
        units@ == until_zero(units_of(data@)),
{
    let mut units: Vec<u16> = Vec::new();
    let count: usize = data.len() / 2;
    let mut index: usize = 0;
    let ghost all = units_of(data@);
    assert(all.skip(0) =~= all);
    assert(units@ =~= Seq::<u16>::empty());
    while index < count
        invariant_except_break
            index <= count == data@.len() / 2,
            2 * count <= usize::MAX,
            all == units_of(data@),
            until_zero(all) == units@ + until_zero(all.skip(index as int)),
        ensures
            units@ == until_zero(all),
        decreases count - index,
    {
        let unit: u16 = data[2 * index] as u16 + 256 * (data[2 * index + 1] as u16);
        let ghost rest = all.skip(index as int);
        assert(rest[0] == unit);
        if unit == 0 {
            assert(units@ + until_zero(rest) =~= units@);
            break;
        }
        assert(rest.skip(1) =~= all.skip(index + 1));
        assert(units@ + until_zero(rest) =~= units@.push(unit) + until_zero(all.skip(index + 1)));
        units.push(unit);
        index += 1;
        proof {
            if index == count {
                assert(units@ + until_zero(all.skip(index as int)) =~= units@);
            }
        }
    }
    units
}

fn same_units(left: &[u16], right: &[u16]) -> (same: bool)
    ensures
        same == (left@ == right@),
{
    if left.len() != right.len() {
        return false;
    }
    let mut index: usize = 0;
    while index < left.len()
        invariant
            index <= left@.len(),
            left@.len() == right@.len(),
            forall|k: int| 0 <= k < index ==> left@[k] == right@[k],
        decreases left@.len() - index,
    {
        if left[index] != right[index] {
            assert(left@[index as int] != right@[index as int]);
            return false;
        }
        index += 1;
    }
    assert(left@ =~= right@);
    true
}

/// Whether an executable starts with the system, given the bytes of the registry value.
pub fn query_autostart(executable: &str, stored: Option<&[u8]>) -> (result: Result<
    AutostartState,
    Failure,
>)
    ensures
        result == autostart_outcome(
            executable@,
            match stored {
                Some(data) => Some(data@),
                None => None,
            },
        ),
{
    let expected = match quote_tray_command(executable) {
        Err(failure) => {
            return Err(failure);
        },
        Ok(expected) => expected,
    };
    let data = match stored {
        None => {
            return Ok(AutostartState::Disabled);
        },
        Some(data) => data,
    };
    if data.len() == 0 || data.len() > MAX_VALUE_BYTES || data.len() % 2 != 0 {
        return Ok(AutostartState::Stale);
    }
    let units = read_units(data);
    if !check_utf16(units.as_slice()) {
        return Err(Failure::invalid("autostart value is not UTF-16"));
    }
    let wanted = text::encode_utf16(expected.as_str());
    if same_units(units.as_slice(), wanted.as_slice()) {
        Ok(AutostartState::Enabled)
    } else {
        Ok(AutostartState::Stale)
    }
}

/// The word for whether an executable starts with the system.
pub fn autostart_status(executable: &str, stored: Option<&[u8]>) -> (result: Result<
    &'static str,
    Failure,
>)
    ensures
        match autostart_outcome(
            executable@,
            match stored {
                Some(data) => Some(data@),
                None => None,
            },
        ) {
            Ok(state) => result matches Ok(label) && label@ == state.spec_label(),
            Err(failure) => result == Err::<&'static str, Failure>(failure),
        },
{
    match query_autostart(executable, stored) {
        Ok(state) => Ok(state.label()),
        Err(failure) => Err(failure),
    }
}

/// What to do to the registry value.
#[derive(Debug)]
pub enum AutostartChange {
    /// Write these bytes, a text with its terminating zero.
    Write { data: Vec<u8> },
    /// Delete it; that it is not there is no failure.
    Delete,
}

/// The bytes of the registry value that starts an executable with the system.
pub open spec fn autostart_bytes(executable: Seq<char>) -> Seq<u8> {
    unit_bytes(text::utf16(command_text(executable)).push(0))
}

/// What to do to the registry value for an executable to start with the system, or not to.
pub fn set_autostart(executable: &str, enabled: bool) -> (result: Result<AutostartChange, Failure>)
    ensures
        if !enabled {
            result == Ok::<AutostartChange, Failure>(AutostartChange::Delete)
        } else if executable@.contains('"') {
            result == Err::<AutostartChange, Failure>(
                Failure::new(FailureKind::InvalidInput, "the executable path contains a quote"),
            )
        } else {
            result matches Ok(AutostartChange::Write { data }) && data@ == autostart_bytes(
                executable@,
            )
        },
{
    if !enabled {
        return Ok(AutostartChange::Delete);
    }
    let command = match quote_tray_command(executable) {
        Err(failure) => {
            return Err(failure);
        },
        Ok(command) => command,
    };
    let mut units = text::encode_utf16(command.as_str());
    units.push(0);
    let mut data: Vec<u8> = Vec::new();
    let mut index: usize = 0;
    while index < units.len()
        invariant
            index <= units@.len(),
            data@ == unit_bytes(units@.take(index as int)),
        decreases units@.len() - index,
    {
        let ghost before = data@;
        data.push((units[index] % 256) as u8);
        data.push((units[index] / 256) as u8);
        index += 1;
        proof {
            let now = unit_bytes(units@.take(index as int));
            assert forall|k: int| 0 <= k < now.len() implies #[trigger] now[k] == data@[k] by {
                if k < before.len() {
                    assert(before[k] == unit_bytes(units@.take(index - 1))[k]);
                    assert(units@.take(index as int)[k / 2] == units@.take(index - 1)[k / 2]);
                }
            }
            assert(data@ =~= now);
        }
    }
    assert(units@.take(index as int) =~= units@);
    Ok(AutostartChange::Write { data })
}

/// Whether autostart is to be switched on when the user asks for the other state.
pub fn toggled(state: AutostartState) -> (enable: bool)
    ensures
        enable == (state != AutostartState::Enabled),
{
    state != AutostartState::Enabled
}

proof fn lemma_valid_utf16_joins(left: Seq<u16>, right: Seq<u16>)
    requires
        valid_utf16(left),
        valid_utf16(right),
    ensures
        valid_utf16(left + right),
    decreases left.len(),
{
    if left.len() == 0 {
        assert(left + right =~= right);
    } else if leads(left[0]) {
        lemma_valid_utf16_joins(left.skip(2), right);
        assert((left + right).skip(2) =~= left.skip(2) + right);
    } else {
        lemma_valid_utf16_joins(left.skip(1), right);
        assert((left + right).skip(1) =~= left.skip(1) + right);
    }
}

proof fn lemma_utf16_of_is_valid(character: char)
    ensures
        valid_utf16(text::utf16_of(character)),
        character as int != 0 ==> !text::utf16_of(character).contains(0),
{
    let units = text::utf16_of(character);
    reveal_with_fuel(valid_utf16, 3);
    assert(units.skip(1).len() == units.len() - 1);
    if units.len() == 2 {
        assert(units.skip(2).len() == 0);
    }
}

proof fn lemma_utf16_is_valid(text: Seq<char>)
    ensures
        valid_utf16(text::utf16(text)),
        (forall|k: int| 0 <= k < text.len() ==> (#[trigger] text[k]) as int != 0)
            ==> !text::utf16(text).contains(0),
    decreases text.len(),
{
    if text.len() > 0 {
        let rest = text.drop_last();
        lemma_utf16_is_valid(rest);
        lemma_utf16_of_is_valid(text.last());
        lemma_valid_utf16_joins(text::utf16(rest), text::utf16_of(text.last()));
        if forall|k: int| 0 <= k < text.len() ==> (#[trigger] text[k]) as int != 0 {
            assert forall|k: int| 0 <= k < rest.len() implies (#[trigger] rest[k]) as int != 0 by {
                assert(rest[k] == text[k]);
            }
            let all = text::utf16(text);
            if all.contains(0) {
                let k = choose|k: int| 0 <= k < all.len() && all[k] == 0;
                if k < text::utf16(rest).len() {
                    assert(text::utf16(rest)[k] == 0);
                } else {
                    assert(text::utf16_of(text.last())[k - text::utf16(rest).len()] == 0);
                }
            }
        }
    }
}

proof fn lemma_until_zero(units: Seq<u16>)
    requires
        !units.contains(0),
    ensures
        until_zero(units.push(0)) == units,
    decreases units.len(),
{
    let ended = units.push(0);
    if units.len() == 0 {
        assert(units =~= Seq::empty());
    } else {
        assert(units[0] != 0) by {
            if units[0] == 0 {
                assert(units.contains(units[0]));
            }
        }
        let rest = units.skip(1);
        assert(!rest.contains(0)) by {
            if rest.contains(0) {
                let k = choose|k: int| 0 <= k < rest.len() && rest[k] == 0;
                assert(units[k + 1] == 0);
            }
        }
        lemma_until_zero(rest);
        assert(ended.skip(1) =~= rest.push(0));
        assert(seq![units[0]] + rest =~= units);
    }
}

/// What is written to switch autostart on is read back as switched on, for every path without a
/// quote and without a zero that fits in what is read.
pub proof fn lemma_autostart_round_trip(executable: Seq<char>)
    requires
        !executable.contains('"'),
        forall|k: int| 0 <= k < executable.len() ==> (#[trigger] executable[k]) as int != 0,
        autostart_bytes(executable).len() <= MAX_VALUE_BYTES,
    ensures
        autostart_outcome(executable, Some(autostart_bytes(executable))) == Ok::<
            AutostartState,
            Failure,
        >(AutostartState::Enabled),
{
    let command = command_text(executable);
    reveal_strlit("\"");
    reveal_strlit("\" tray");
    assert forall|k: int| 0 <= k < command.len() implies (#[trigger] command[k]) as int != 0 by {
        if 1 <= k < 1 + executable.len() {
            assert(command[k] == executable[k - 1]);
        }
    }
    lemma_utf16_is_valid(command);
    let units = text::utf16(command);
    lemma_until_zero(units);
    let ended = units.push(0);
    let data = autostart_bytes(executable);
    assert(units_of(data) =~= ended) by {
        assert forall|k: int| 0 <= k < ended.len() implies #[trigger] units_of(data)[k]
            == ended[k] by {
            assert(data[2 * k] == (ended[k] % 256) as u8);
            assert(data[2 * k + 1] == (ended[k] / 256) as u8);
        }
    }
}

/// The command quotes the path of the executable, and asks for the notification area.
pub proof fn lemma_command(executable: Seq<char>)
    ensures
        ({
            let command = command_text(executable);
            &&& command.len() == executable.len() + 7
            &&& command[0] == '"'
            &&& command.subrange(1, 1 + executable.len() as int) == executable
            &&& command.skip(1 + executable.len() as int) == seq!['"', ' ', 't', 'r', 'a', 'y']
        }),
{
    reveal_strlit("\"");
    reveal_strlit("\" tray");
    let command = command_text(executable);
    assert(command.subrange(1, 1 + executable.len() as int) =~= executable);
    assert(command.skip(1 + executable.len() as int) =~= seq!['"', ' ', 't', 'r', 'a', 'y']);
}

/// Autostart is off without a value, on where the value starts this very executable, and stale where
/// it holds anything else that can be read.
pub proof fn lemma_states_of_autostart(executable: Seq<char>, data: Seq<u8>)
    requires
        !executable.contains('"'),
    ensures
        autostart_outcome(executable, None) == Ok::<AutostartState, Failure>(AutostartState::Disabled),
        autostart_outcome(executable, Some(data)) == Ok::<AutostartState, Failure>(
            AutostartState::Enabled,
        ) <==> 0 < data.len() <= 65_536 && data.len() % 2 == 0 && valid_utf16(until_zero(units_of(data)))
            && until_zero(units_of(data)) == text::utf16(command_text(executable)),
        autostart_outcome(executable, Some(data)) != Ok::<AutostartState, Failure>(
            AutostartState::Disabled,
        ),
        autostart_outcome(executable, Some(data)) is Err <==> 0 < data.len() <= 65_536 && data.len() % 2 == 0
            && !valid_utf16(until_zero(units_of(data))),
{
}

/// A path with a quote in it can be neither started nor asked for.
pub proof fn lemma_quoted_paths(executable: Seq<char>, stored: Option<Seq<u8>>)
    requires
        executable.contains('"'),
    ensures
        autostart_outcome(executable, stored) matches Err(failure) && failure.kind is InvalidInput,
{
}

/// Switching autostart on writes the command with a closing zero, two bytes for each code unit, the
/// lower first; switching it off deletes the value.
pub proof fn lemma_switching(executable: &str, enabled: bool, result: Result<AutostartChange, Failure>)
    requires
        call_ensures(set_autostart, (executable, enabled), result),
    ensures
        !enabled ==> result is Ok && result->Ok_0 is Delete,
        enabled && executable@.contains('"') ==> result is Err,
        enabled && !executable@.contains('"') ==> {
            &&& result is Ok
            &&& result->Ok_0 matches AutostartChange::Write { data }
            &&& units_of(data@) == text::utf16(command_text(executable@)).push(0)
        },
{
    if enabled && !executable@.contains('"') {
        let units = text::utf16(command_text(executable@)).push(0);
        let data = unit_bytes(units);
        assert(units_of(data) =~= units) by {
            assert forall|k: int| 0 <= k < units.len() implies units_of(data)[k] == units[k] by {
                assert(data[2 * k] == (units[2 * k / 2] % 256) as u8);
                assert(data[2 * k + 1] == (units[(2 * k + 1) / 2] / 256) as u8);
            }
        }
    }
}

/// A user that asks for the other state switches autostart on unless it is on.
pub proof fn lemma_toggling(state: AutostartState, enable: bool)
    requires
        call_ensures(toggled, (state,), enable),
    ensures
        enable <==> state is Disabled || state is Stale,
{
}

/// What is read of a value ends before its first zero, and holds no zero.
pub proof fn lemma_values_end_at_zero(units: Seq<u16>)
    ensures
        until_zero(units).len() <= units.len(),
        until_zero(units) == units.take(until_zero(units).len() as int),
        until_zero(units).len() < units.len() ==> units[until_zero(units).len() as int] == 0,
        forall|k: int| 0 <= k < until_zero(units).len() ==> #[trigger] units[k] != 0,
    decreases units.len(),
{
    if units.len() > 0 && units[0] != 0 {
        let rest = units.skip(1);
        lemma_values_end_at_zero(rest);
        let kept = until_zero(rest);
        assert(until_zero(units) =~= units.take(kept.len() as int + 1)) by {
            assert(rest.take(kept.len() as int) =~= units.subrange(1, kept.len() as int + 1));
        }
        assert forall|k: int| 0 <= k < until_zero(units).len() implies #[trigger] units[k] != 0 by {
            if k > 0 {
                assert(rest[k - 1] == units[k]);
            }
        }
        if kept.len() < rest.len() {
            assert(rest[kept.len() as int] == units[kept.len() as int + 1]);
        }
    }
}

/// The word under which a log shows whether the application starts by itself.
pub proof fn lemma_words_of_autostart(state: AutostartState, label: &'static str)
    requires
        call_ensures(AutostartState::label, (state,), label),
    ensures
        state is Disabled ==> label@ == "disabled"@,
        state is Enabled ==> label@ == "enabled"@,
        state is Stale ==> label@ == "stale"@,
{
}

} // verus!

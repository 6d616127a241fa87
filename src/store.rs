use vstd::prelude::*;

use crate::json::{find_member, lookup, lookup_from, JsonValue};

verus! {

/// The envelope schema version this library writes.
pub const STATE_SCHEMA_VERSION: u64 = 1;

/// The UI state found in a state file, and whether the file is in an older
/// layout and should be written again in the current one.
#[derive(Debug, PartialEq, Eq)]
pub struct DecodedState {
    pub ui_state: JsonValue,
    pub needs_rewrite: bool,
}

/// Why a parsed state file could not be decoded.
#[derive(Clone, Copy, Debug, PartialEq, Eq, Structural)]
pub enum DecodeError {
    /// `schema_version` is present but is not a non-negative integer.
    SchemaVersionNotInteger,
    /// A version 1 envelope without `ui_state`.
    MissingUiState,
    /// A version 0 envelope with neither `state` nor `ui_state`.
    MissingLegacyState,
    /// A version newer than this library understands.
    UnsupportedSchemaVersion(u64),
}

/// The member a legacy envelope keeps its state in: `state`, else `ui_state`.
pub open spec fn legacy_member(entries: Seq<(String, JsonValue)>) -> Option<JsonValue> {
    match lookup(entries, "state"@) {
        Some(v) => Some(v),
        None => lookup(entries, "ui_state"@),
    }
}

/// What a parsed state file decodes to.
///
/// A value that is not an object is a bare legacy state, used as it is. An
/// object without `schema_version` is a legacy envelope when it has a `state`
/// or `ui_state` member, whose value is the state; otherwise the object itself
/// is the state. Version 1 requires `ui_state`; version 0 takes `state` or
/// `ui_state`; any other version is refused. Every legacy shape asks for a
/// rewrite.
pub open spec fn decoded(raw: JsonValue) -> Result<DecodedState, DecodeError> {
    match raw {
        JsonValue::Object(entries) => match lookup(entries@, "schema_version"@) {
            None => match legacy_member(entries@) {
                Some(v) => Ok(DecodedState { ui_state: v, needs_rewrite: true }),
                None => Ok(DecodedState { ui_state: raw, needs_rewrite: true }),
            },
            Some(JsonValue::UInt(version)) => {
                if version == 1 {
                    match lookup(entries@, "ui_state"@) {
                        Some(v) => Ok(DecodedState { ui_state: v, needs_rewrite: false }),
                        None => Err(DecodeError::MissingUiState),
                    }
                } else if version == 0 {
                    match legacy_member(entries@) {
                        Some(v) => Ok(DecodedState { ui_state: v, needs_rewrite: true }),
                        None => Err(DecodeError::MissingLegacyState),
                    }
                } else {
                    Err(DecodeError::UnsupportedSchemaVersion(version))
                }
            },
            Some(_) => Err(DecodeError::SchemaVersionNotInteger),
        },
        _ => Ok(DecodedState { ui_state: raw, needs_rewrite: true }),
    }
}

/// Removes the first member named `key` and returns its value; leaves the
/// members unchanged when there is none.
fn take_member(entries: &mut Vec<(String, JsonValue)>, key: &String) -> (r: Option<JsonValue>)
    ensures
        r == lookup(old(entries)@, key@),
        r is None ==> *final(entries) == *old(entries),
{
    match find_member(entries, key) {
        Some(i) => {
            let (_, value) = entries.remove(i);
            Some(value)
        },
        None => None,
    }
}

/// Removes and returns the member a legacy envelope keeps its state in.
fn take_legacy_member(entries: &mut Vec<(String, JsonValue)>) -> (r: Option<JsonValue>)
    ensures
        r == legacy_member(old(entries)@),
        r is None ==> *final(entries) == *old(entries),
{
    let state_key = String::from_str("state");
    match take_member(entries, &state_key) {
        Some(v) => Some(v),
        None => {
            let ui_state_key = String::from_str("ui_state");
            take_member(entries, &ui_state_key)
        },
    }
}

/// Decodes a parsed state file into its UI state.
pub fn decode_persisted_value(raw: JsonValue) -> (r: Result<DecodedState, DecodeError>)
    ensures
        r == decoded(raw),
{
    match raw {
        JsonValue::Object(mut entries) => {
            let schema_key = String::from_str("schema_version");
            match find_member(&entries, &schema_key) {
                None => match take_legacy_member(&mut entries) {
                    Some(v) => Ok(DecodedState { ui_state: v, needs_rewrite: true }),
                    None => Ok(DecodedState { ui_state: JsonValue::Object(entries), needs_rewrite: true }),
                },
                Some(i) => {
                    let version: u64 = match &entries[i].1 {
                        JsonValue::UInt(n) => *n,
                        _ => {
                            return Err(DecodeError::SchemaVersionNotInteger);
                        },
                    };
                    if version == 1 {
                        let ui_state_key = String::from_str("ui_state");
                        match take_member(&mut entries, &ui_state_key) {
                            Some(v) => Ok(DecodedState { ui_state: v, needs_rewrite: false }),
                            None => Err(DecodeError::MissingUiState),
                        }
                    } else if version == 0 {
                        decode_legacy_envelope_v0(entries)
                    } else {
                        Err(DecodeError::UnsupportedSchemaVersion(version))
                    }
                },
            }
        },
        other => Ok(DecodedState { ui_state: other, needs_rewrite: true }),
    }
}

/// Decodes the members of a version 0 envelope.
pub fn decode_legacy_envelope_v0(entries: Vec<(String, JsonValue)>) -> (r: Result<
    DecodedState,
    DecodeError,
>)
    ensures
        r == (match legacy_member(entries@) {
            Some(v) => Ok(DecodedState { ui_state: v, needs_rewrite: true }),
            None => Err(DecodeError::MissingLegacyState),
        }),
{
    let mut entries = entries;
    match take_legacy_member(&mut entries) {
        Some(v) => Ok(DecodedState { ui_state: v, needs_rewrite: true }),
        None => Err(DecodeError::MissingLegacyState),
    }
}

/// `e` is the current envelope around `ui_state`, stamped `updated_at_ms`:
/// `schema_version`, `updated_at_unix_ms` and `ui_state`, in that order.
pub open spec fn is_envelope(e: JsonValue, ui_state: JsonValue, updated_at_ms: u64) -> bool {
    match e {
        JsonValue::Object(entries) => {
            &&& entries@.len() == 3
            &&& entries@[0].0@ == "schema_version"@
            &&& entries@[0].1 == JsonValue::UInt(STATE_SCHEMA_VERSION)
            &&& entries@[1].0@ == "updated_at_unix_ms"@
            &&& entries@[1].1 == JsonValue::UInt(updated_at_ms)
            &&& entries@[2].0@ == "ui_state"@
            &&& entries@[2].1 == ui_state
        },
        _ => false,
    }
}

/// Wraps `ui_state` in the current envelope.
pub fn build_envelope(ui_state: JsonValue, updated_at_ms: u64) -> (r: JsonValue)
    ensures
        is_envelope(r, ui_state, updated_at_ms),
{
    let mut entries: Vec<(String, JsonValue)> = Vec::new();
    entries.push((String::from_str("schema_version"), JsonValue::UInt(STATE_SCHEMA_VERSION)));
    entries.push((String::from_str("updated_at_unix_ms"), JsonValue::UInt(updated_at_ms)));
    entries.push((String::from_str("ui_state"), ui_state));
    JsonValue::Object(entries)
}

/// Decoding the current envelope gives back the state it wraps, with no
/// rewrite asked for.
pub proof fn lemma_envelope_decodes(e: JsonValue, ui_state: JsonValue, updated_at_ms: u64)
    requires
        is_envelope(e, ui_state, updated_at_ms),
    ensures
        decoded(e) == Ok::<DecodedState, DecodeError>(
            DecodedState { ui_state: ui_state, needs_rewrite: false },
        ),
{
    reveal_strlit("schema_version");
    reveal_strlit("updated_at_unix_ms");
    reveal_strlit("ui_state");
    let entries = e->Object_0@;
    assert(lookup(entries, "schema_version"@) == Some(JsonValue::UInt(1)));
    assert("schema_version"@.len() == 14);
    assert("updated_at_unix_ms"@.len() == 18);
    assert("ui_state"@.len() == 8);
    assert(entries[0].0@ != "ui_state"@);
    assert(entries[1].0@ != "ui_state"@);
    assert(lookup_from(entries, "ui_state"@, 2) == Some(ui_state));
    assert(lookup_from(entries, "ui_state"@, 1) == Some(ui_state));
    assert(lookup(entries, "ui_state"@) == Some(ui_state));
}

/// One of the three files of the state directory.
#[derive(Clone, Copy, Debug, PartialEq, Eq, Structural)]
pub enum Slot {
    Primary,
    Backup,
    Temp,
}

/// What was found at a slot: nothing, a file that could not be read or
/// parsed as JSON, or a parsed document.
#[derive(Debug, PartialEq, Eq)]
pub enum SlotRead {
    Missing,
    Unreadable,
    Parsed(JsonValue),
}

/// One filesystem step of a write.
///
/// `WriteTemp` replaces the staging slot with a fully written and synced
/// document. `Remove` deletes a slot if it is there. `Rename` moves the
/// first slot onto the second, replacing it, and does nothing when the first
/// is absent.
#[derive(Debug, PartialEq, Eq)]
pub enum FsStep {
    WriteTemp(JsonValue),
    Remove(Slot),
    Rename(Slot, Slot),
}

/// The contents of the three slots.
pub struct DiskModel {
    pub primary: SlotRead,
    pub backup: SlotRead,
    pub temp: SlotRead,
}

/// The contents of slot `s`.
pub open spec fn slot_of(d: DiskModel, s: Slot) -> SlotRead {
    match s {
        Slot::Primary => d.primary,
        Slot::Backup => d.backup,
        Slot::Temp => d.temp,
    }
}

/// `d` with slot `s` holding `c`.
pub open spec fn with_slot(d: DiskModel, s: Slot, c: SlotRead) -> DiskModel {
    match s {
        Slot::Primary => DiskModel { primary: c, ..d },
        Slot::Backup => DiskModel { backup: c, ..d },
        Slot::Temp => DiskModel { temp: c, ..d },
    }
}

/// The slots after one step.
pub open spec fn apply_step(d: DiskModel, step: FsStep) -> DiskModel {
    match step {
        FsStep::WriteTemp(v) => with_slot(d, Slot::Temp, SlotRead::Parsed(v)),
        FsStep::Remove(s) => with_slot(d, s, SlotRead::Missing),
        FsStep::Rename(from, to) => {
            if slot_of(d, from) is Missing || from == to {
                d
            } else {
                with_slot(with_slot(d, to, slot_of(d, from)), from, SlotRead::Missing)
            }
        },
    }
}

/// The slots after the steps, in order.
pub open spec fn apply_steps(d: DiskModel, steps: Seq<FsStep>) -> DiskModel
    decreases steps.len(),
{
    if steps.len() == 0 {
        d
    } else {
        apply_steps(apply_step(d, steps[0]), steps.drop_first())
    }
}

/// `steps` write `ui_state` the crash-safe way: stage the new envelope,
/// drop the old backup, move the primary to the backup, commit the staged
/// file as the primary.
pub open spec fn is_save_plan(steps: Seq<FsStep>, ui_state: JsonValue, updated_at_ms: u64) -> bool {
    &&& steps.len() == 4
    &&& steps[0] is WriteTemp && is_envelope(steps[0]->WriteTemp_0, ui_state, updated_at_ms)
    &&& steps[1] == FsStep::Remove(Slot::Backup)
    &&& steps[2] == FsStep::Rename(Slot::Primary, Slot::Backup)
    &&& steps[3] == FsStep::Rename(Slot::Temp, Slot::Primary)
}

/// `steps` write `ui_state` straight over the primary, keeping the backup:
/// used when recovering from the backup.
pub open spec fn is_restore_plan(steps: Seq<FsStep>, ui_state: JsonValue, updated_at_ms: u64) -> bool {
    &&& steps.len() == 3
    &&& steps[0] is WriteTemp && is_envelope(steps[0]->WriteTemp_0, ui_state, updated_at_ms)
    &&& steps[1] == FsStep::Remove(Slot::Primary)
    &&& steps[2] == FsStep::Rename(Slot::Temp, Slot::Primary)
}

/// The steps that persist `ui_state`, replacing the previous state.
pub fn save_plan(ui_state: JsonValue, updated_at_ms: u64) -> (r: Vec<FsStep>)
    ensures
        is_save_plan(r@, ui_state, updated_at_ms),
{
    let mut steps: Vec<FsStep> = Vec::new();
    steps.push(FsStep::WriteTemp(build_envelope(ui_state, updated_at_ms)));
    steps.push(FsStep::Remove(Slot::Backup));
    steps.push(FsStep::Rename(Slot::Primary, Slot::Backup));
    steps.push(FsStep::Rename(Slot::Temp, Slot::Primary));
    steps
}

/// The steps that rewrite the primary from a state recovered from the backup.
pub fn restore_plan(ui_state: JsonValue, updated_at_ms: u64) -> (r: Vec<FsStep>)
    ensures
        is_restore_plan(r@, ui_state, updated_at_ms),
{
    let mut steps: Vec<FsStep> = Vec::new();
    steps.push(FsStep::WriteTemp(build_envelope(ui_state, updated_at_ms)));
    steps.push(FsStep::Remove(Slot::Primary));
    steps.push(FsStep::Rename(Slot::Temp, Slot::Primary));
    steps
}

/// Why a slot gave no state.
#[derive(Clone, Copy, Debug, PartialEq, Eq, Structural)]
pub enum StateReadError {
    /// The file could not be read or is not JSON.
    Unreadable,
    /// The file is JSON but not a state file this library can decode.
    Decode(DecodeError),
}

/// What reading a slot gives: no file, a decoded state, or an error.
pub open spec fn slot_state(read: SlotRead) -> Result<Option<DecodedState>, StateReadError> {
    match read {
        SlotRead::Missing => Ok(None),
        SlotRead::Unreadable => Err(StateReadError::Unreadable),
        SlotRead::Parsed(v) => match decoded(v) {
            Ok(state) => Ok(Some(state)),
            Err(e) => Err(StateReadError::Decode(e)),
        },
    }
}

/// Decodes what was found at a slot.
pub fn read_state_file(read: SlotRead) -> (r: Result<Option<DecodedState>, StateReadError>)
    ensures
        r == slot_state(read),
{
    match read {
        SlotRead::Missing => Ok(None),
        SlotRead::Unreadable => Err(StateReadError::Unreadable),
        SlotRead::Parsed(v) => match decode_persisted_value(v) {
            Ok(state) => Ok(Some(state)),
            Err(e) => Err(StateReadError::Decode(e)),
        },
    }
}

/// What a load does next.
#[derive(Debug, PartialEq, Eq)]
pub enum LoadDecision {
    /// Return this value; nothing is written.
    Return(Option<JsonValue>),
    /// Write this value with the save plan, then return it.
    RewriteThenReturn(JsonValue),
    /// Write this value with the restore plan, then return it (a failed
    /// restore does not change the result).
    RestoreThenReturn(JsonValue),
    /// The primary gave nothing: read the backup.
    ReadBackup,
}

/// The decision once the primary has been read.
pub open spec fn decision_after_primary(primary: Result<Option<DecodedState>, StateReadError>) -> LoadDecision {
    match primary {
        Ok(Some(state)) => {
            if state.needs_rewrite {
                LoadDecision::RewriteThenReturn(state.ui_state)
            } else {
                LoadDecision::Return(Some(state.ui_state))
            }
        },
        _ => LoadDecision::ReadBackup,
    }
}

/// The decision once the backup has been read.
pub open spec fn decision_after_backup(backup: Result<Option<DecodedState>, StateReadError>) -> LoadDecision {
    match backup {
        Ok(Some(state)) => LoadDecision::RestoreThenReturn(state.ui_state),
        _ => LoadDecision::Return(None),
    }
}

/// Decides what a load does after reading the primary slot.
pub fn decide_after_primary(primary: Result<Option<DecodedState>, StateReadError>) -> (r: LoadDecision)
    ensures
        r == decision_after_primary(primary),
{
    match primary {
        Ok(Some(state)) => {
            if state.needs_rewrite {
                LoadDecision::RewriteThenReturn(state.ui_state)
            } else {
                LoadDecision::Return(Some(state.ui_state))
            }
        },
        _ => LoadDecision::ReadBackup,
    }
}

/// Decides what a load does after reading the backup slot.
pub fn decide_after_backup(backup: Result<Option<DecodedState>, StateReadError>) -> (r: LoadDecision)
    ensures
        r == decision_after_backup(backup),
{
    match backup {
        Ok(Some(state)) => LoadDecision::RestoreThenReturn(state.ui_state),
        _ => LoadDecision::Return(None),
    }
}

/// The decision a load reaches on the slots `d`.
pub open spec fn load_decision(d: DiskModel) -> LoadDecision {
    let first = decision_after_primary(slot_state(d.primary));
    if first is ReadBackup {
        decision_after_backup(slot_state(d.backup))
    } else {
        first
    }
}

/// The value a load returns on the slots `d`.
pub open spec fn load_result(d: DiskModel) -> Option<JsonValue> {
    match load_decision(d) {
        LoadDecision::Return(v) => v,
        LoadDecision::RewriteThenReturn(v) => Some(v),
        LoadDecision::RestoreThenReturn(v) => Some(v),
        LoadDecision::ReadBackup => None,
    }
}

/// A slot holds a file that decodes.
pub open spec fn slot_is_valid(read: SlotRead) -> bool {
    slot_state(read) matches Ok(Some(_))
}

/// The slots after the first `k` steps of a save plan whose staged
/// envelope is `staged`.
pub open spec fn save_prefix_state(d: DiskModel, staged: JsonValue, k: int) -> DiskModel {
    let written = with_slot(d, Slot::Temp, SlotRead::Parsed(staged));
    let cleared = with_slot(written, Slot::Backup, SlotRead::Missing);
    let rotated = if d.primary is Missing {
        cleared
    } else {
        with_slot(with_slot(cleared, Slot::Backup, d.primary), Slot::Primary, SlotRead::Missing)
    };
    if k <= 0 {
        d
    } else if k == 1 {
        written
    } else if k == 2 {
        cleared
    } else if k == 3 {
        rotated
    } else {
        with_slot(with_slot(rotated, Slot::Primary, SlotRead::Parsed(staged)), Slot::Temp, SlotRead::Missing)
    }
}

proof fn lemma_apply_save_plan(d: DiskModel, steps: Seq<FsStep>, ui_state: JsonValue, t: u64)
    requires
        is_save_plan(steps, ui_state, t),
    ensures
        apply_steps(d, steps.take(0)) == save_prefix_state(d, steps[0]->WriteTemp_0, 0),
        apply_steps(d, steps.take(1)) == save_prefix_state(d, steps[0]->WriteTemp_0, 1),
        apply_steps(d, steps.take(2)) == save_prefix_state(d, steps[0]->WriteTemp_0, 2),
        apply_steps(d, steps.take(3)) == save_prefix_state(d, steps[0]->WriteTemp_0, 3),
        apply_steps(d, steps.take(4)) == save_prefix_state(d, steps[0]->WriteTemp_0, 4),
        apply_steps(d, steps) == apply_steps(d, steps.take(4)),
{
    assert(steps.take(4) =~= steps);
    assert(steps.take(0) =~= Seq::<FsStep>::empty());
    lemma_apply_steps_snoc(d, steps, 0);
    lemma_apply_steps_snoc(d, steps, 1);
    lemma_apply_steps_snoc(d, steps, 2);
    lemma_apply_steps_snoc(d, steps, 3);
}

/// Applying one more step of a sequence is applying that step last.
proof fn lemma_apply_steps_snoc(d: DiskModel, steps: Seq<FsStep>, k: int)
    requires
        0 <= k < steps.len(),
    ensures
        apply_steps(d, steps.take(k + 1)) == apply_step(apply_steps(d, steps.take(k)), steps[k]),
    decreases k,
{
    if k == 0 {
        assert(steps.take(1).drop_first() =~= Seq::<FsStep>::empty());
        assert(steps.take(0) =~= Seq::<FsStep>::empty());
        assert(steps.take(1)[0] == steps[0]);
        let d1 = apply_step(d, steps[0]);
        assert(apply_steps(d1, Seq::<FsStep>::empty()) == d1);
        assert(apply_steps(d, Seq::<FsStep>::empty()) == d);
    } else {
        let rest = steps.drop_first();
        lemma_apply_steps_snoc(apply_step(d, steps[0]), rest, k - 1);
        assert(steps.take(k + 1).drop_first() =~= rest.take(k));
        assert(steps.take(k).drop_first() =~= rest.take(k - 1));
        assert(steps.take(k + 1)[0] == steps[0]);
        assert(steps.take(k)[0] == steps[0]);
        assert(rest[k - 1] == steps[k]);
    }
}

/// Saving a value and loading again returns that value, whatever the slots
/// held before, and the load asks for no rewrite.
pub proof fn lemma_save_then_load(d: DiskModel, steps: Seq<FsStep>, ui_state: JsonValue, t: u64)
    requires
        is_save_plan(steps, ui_state, t),
    ensures
        load_decision(apply_steps(d, steps)) == LoadDecision::Return(Some(ui_state)),
        load_result(apply_steps(d, steps)) == Some(ui_state),
{
    lemma_apply_save_plan(d, steps, ui_state, t);
    lemma_envelope_decodes(steps[0]->WriteTemp_0, ui_state, t);
}

/// A write cut short after any of its steps leaves a state to load, as long
/// as the primary held a valid file before it started (as it does after any
/// completed save).
pub proof fn lemma_interrupted_save_keeps_a_state(
    d: DiskModel,
    steps: Seq<FsStep>,
    ui_state: JsonValue,
    t: u64,
    k: int,
)
    requires
        is_save_plan(steps, ui_state, t),
        slot_is_valid(d.primary),
        0 <= k <= steps.len(),
    ensures
        load_result(apply_steps(d, steps.take(k))) is Some,
{
    lemma_apply_save_plan(d, steps, ui_state, t);
    lemma_envelope_decodes(steps[0]->WriteTemp_0, ui_state, t);
}

/// Restoring the primary from a recovered value leaves a primary that loads
/// as that value, with no rewrite asked for.
pub proof fn lemma_restore_then_load(d: DiskModel, steps: Seq<FsStep>, ui_state: JsonValue, t: u64)
    requires
        is_restore_plan(steps, ui_state, t),
    ensures
        load_decision(apply_steps(d, steps)) == LoadDecision::Return(Some(ui_state)),
{
    assert(steps.take(3) =~= steps);
    assert(steps.take(0) =~= Seq::<FsStep>::empty());
    lemma_apply_steps_snoc(d, steps, 0);
    lemma_apply_steps_snoc(d, steps, 1);
    lemma_apply_steps_snoc(d, steps, 2);
    lemma_envelope_decodes(steps[0]->WriteTemp_0, ui_state, t);
}

/// A primary in an older layout loads as its state and asks for a rewrite;
/// after the rewrite the next load finds the same state in the current
/// layout and asks for none.
pub proof fn lemma_legacy_primary_migrates(d: DiskModel, steps: Seq<FsStep>, t: u64)
    requires
        d.primary is Parsed,
        decoded(d.primary->Parsed_0) is Ok,
        decoded(d.primary->Parsed_0)->Ok_0.needs_rewrite,
        is_save_plan(steps, decoded(d.primary->Parsed_0)->Ok_0.ui_state, t),
    ensures
        load_decision(d) == LoadDecision::RewriteThenReturn(decoded(d.primary->Parsed_0)->Ok_0.ui_state),
        load_decision(apply_steps(d, steps)) == LoadDecision::Return(
            Some(decoded(d.primary->Parsed_0)->Ok_0.ui_state),
        ),
{
    lemma_save_then_load(d, steps, decoded(d.primary->Parsed_0)->Ok_0.ui_state, t);
}

} // verus!

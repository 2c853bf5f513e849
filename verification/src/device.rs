//! Naming capture devices and choosing one of them.
//!
//! The caller enumerates the devices and hands their names over, `None`
//! where a device would not tell its name; the functions here answer with
//! positions in that list.

use std::collections::hash_map::DefaultHasher;
use std::hash::{Hash, Hasher};
use vstd::prelude::*;
use vstd::std_specs::hash::DefaultHasherAdditionalSpecFns;
use vstd::string::StringExecFns;

use crate::error::AudioError;

verus! {

/// A capture device as it is shown to a user.
#[derive(Debug)]
pub struct AudioDevice {
    /// A stable identifier derived from the name.
    pub id: String,
    /// The name that the device reports.
    pub name: String,
}

/// A device entry, as mathematics.
pub struct AudioDeviceView {
    /// The identifier.
    pub id: Seq<char>,
    /// The name.
    pub name: Seq<char>,
}

impl View for AudioDevice {
    type V = AudioDeviceView;

    open spec fn view(&self) -> AudioDeviceView {
        AudioDeviceView { id: self.id@, name: self.name@ }
    }
}

/// What hashing a string writes into a hasher.
pub uninterp spec fn str_hash_writes(text: Seq<char>) -> Seq<Seq<u8>>;

/// The 64-bit digest of a device name: what the default hasher, freshly
/// made, returns after the name was hashed into it.
pub open spec fn device_digest(name: Seq<char>) -> u64 {
    DefaultHasher::spec_finish(str_hash_writes(name))
}

/// The lower-case hexadecimal digit for a value below sixteen.
pub open spec fn hex_digit(d: int) -> char {
    if d < 10 {
        ('0' as int + d) as char
    } else {
        ('a' as int + d - 10) as char
    }
}

/// A number in lower-case hexadecimal, without prefix or leading zeros.
pub open spec fn lower_hex(v: int) -> Seq<char>
    decreases v,
{
    if v < 16 {
        seq![hex_digit(v)]
    } else {
        lower_hex(v / 16).push(hex_digit(v % 16))
    }
}

/// The identifier of a device with the given name.
pub open spec fn device_id_of(name: Seq<char>) -> Seq<char> {
    lower_hex(device_digest(name) as int)
}

/// `Hash::hash` of a `str`, into a default hasher. What it writes depends on
/// the text alone; the writes are appended to those made before.
#[verifier::external_body]
fn hash_str(text: &str, hasher: &mut DefaultHasher)
    ensures
        final(hasher)@ == old(hasher)@ + str_hash_writes(text@),
{
    text.hash(hasher)
}

/// The text of one hexadecimal digit.
fn hex_digit_text(d: u64) -> (text: &'static str)
    requires
        d < 16,
    ensures
        text@ == seq![hex_digit(d as int)],
{
    proof {
        reveal_strlit("0");
        reveal_strlit("1");
        reveal_strlit("2");
        reveal_strlit("3");
        reveal_strlit("4");
        reveal_strlit("5");
        reveal_strlit("6");
        reveal_strlit("7");
        reveal_strlit("8");
        reveal_strlit("9");
        reveal_strlit("a");
        reveal_strlit("b");
        reveal_strlit("c");
        reveal_strlit("d");
        reveal_strlit("e");
        reveal_strlit("f");
    }
    let text = if d == 0 {
        "0"
    } else if d == 1 {
        "1"
    } else if d == 2 {
        "2"
    } else if d == 3 {
        "3"
    } else if d == 4 {
        "4"
    } else if d == 5 {
        "5"
    } else if d == 6 {
        "6"
    } else if d == 7 {
        "7"
    } else if d == 8 {
        "8"
    } else if d == 9 {
        "9"
    } else if d == 10 {
        "a"
    } else if d == 11 {
        "b"
    } else if d == 12 {
        "c"
    } else if d == 13 {
        "d"
    } else if d == 14 {
        "e"
    } else {
        "f"
    };
    assert(text@ =~= seq![hex_digit(d as int)]);
    text
}

/// Appends `value` in lower-case hexadecimal to `out`.
fn push_lower_hex(value: u64, out: &mut String)
    ensures
        final(out)@ == old(out)@ + lower_hex(value as int),
    decreases value,
{
    if value >= 16 {
        push_lower_hex(value / 16, out);
    }
    out.append(hex_digit_text(value % 16));
    assert(out@ =~= old(out)@ + lower_hex(value as int));
}

/// Writes a number in lower-case hexadecimal, without prefix or leading
/// zeros.
pub fn to_lower_hex(value: u64) -> (text: String)
    ensures
        text@ == lower_hex(value as int),
{
    let mut text = String::new();
    push_lower_hex(value, &mut text);
    assert(text@ =~= lower_hex(value as int));
    text
}

/// The identifier of the device called `device_name`: the digest of the
/// name, in lower-case hexadecimal.
pub fn get_device_hash(device_name: &str) -> (id: String)
    ensures
        id@ == device_id_of(device_name@),
{
    let mut hasher = DefaultHasher::new();
    hash_str(device_name, &mut hasher);
    assert(hasher@ =~= str_hash_writes(device_name@));
    to_lower_hex(hasher.finish())
}

/// The entries of the devices that told their names, in the order of
/// `names`.
pub open spec fn device_entries(names: Seq<Option<String>>) -> Seq<AudioDeviceView>
    decreases names.len(),
{
    if names.len() == 0 {
        Seq::empty()
    } else {
        let before = device_entries(names.drop_last());
        match names.last() {
            Some(name) => before.push(AudioDeviceView { id: device_id_of(name@), name: name@ }),
            None => before,
        }
    }
}

/// The views of a list of device entries.
pub open spec fn entry_views(devices: Seq<AudioDevice>) -> Seq<AudioDeviceView> {
    devices.map_values(|d: AudioDevice| d@)
}

/// Lists the devices that told their names, each with its identifier, in
/// the order in which they were enumerated.
pub fn get_microphones(names: &Vec<Option<String>>) -> (devices: Vec<AudioDevice>)
    ensures
        entry_views(devices@) == device_entries(names@),
{
    let mut devices: Vec<AudioDevice> = Vec::new();
    let n = names.len();
    let mut i: usize = 0;
    while i < n
        invariant
            i <= n,
            n == names.len(),
            entry_views(devices@) == device_entries(names@.take(i as int)),
        decreases n - i,
    {
        proof {
            assert(names@.take(i + 1).drop_last() =~= names@.take(i as int));
            assert(names@.take(i + 1).last() == names@[i as int]);
        }
        let ghost before = entry_views(devices@);
        match &names[i] {
            Some(name) => {
                let entry = AudioDevice { id: get_device_hash(name.as_str()), name: name.clone() };
                devices.push(entry);
                assert(entry_views(devices@) =~= before.push(
                    AudioDeviceView { id: device_id_of(name@), name: name@ },
                ));
            },
            None => {},
        }
        i += 1;
    }
    assert(names@.take(n as int) =~= names@);
    devices
}

/// Which device an identifier selects.
#[derive(Debug, Clone, Copy, PartialEq, Eq, Structural)]
pub enum DeviceChoice {
    /// The default input device of the host.
    Default,
    /// The device at this position of the enumeration.
    Listed(usize),
}

/// Whether the device at position `i` of `names` has the identifier `id`.
pub open spec fn has_id(names: Seq<Option<String>>, i: int, id: Seq<char>) -> bool {
    0 <= i < names.len() && names[i] is Some && device_id_of(names[i]->0@) == id
}

/// Whether the device at position `i` of `names` is called `name`.
pub open spec fn has_name(names: Seq<Option<String>>, i: int, name: Seq<char>) -> bool {
    0 <= i < names.len() && names[i] is Some && names[i]->0@ == name
}

/// Chooses a device by its identifier: the default device for the empty
/// identifier, else the first enumerated device that has the identifier.
///
/// Fails with `DeviceNotFound` when no enumerated device has it.
pub fn get_input_device(names: &Vec<Option<String>>, device_id: &str) -> (choice: Result<
    DeviceChoice,
    AudioError,
>)
    ensures
        device_id@.len() == 0 ==> choice == Ok::<DeviceChoice, AudioError>(DeviceChoice::Default),
        device_id@.len() > 0 ==> match choice {
            Ok(DeviceChoice::Listed(i)) => has_id(names@, i as int, device_id@) && forall|j: int|
                0 <= j < i ==> !has_id(names@, j, device_id@),
            Ok(DeviceChoice::Default) => false,
            Err(e) => e == AudioError::DeviceNotFound && forall|j: int|
                0 <= j < names.len() ==> !has_id(names@, j, device_id@),
        },
{
    if device_id.is_empty() {
        return Ok(DeviceChoice::Default);
    }
    let wanted = device_id.to_owned();
    let n = names.len();
    let mut i: usize = 0;
    while i < n
        invariant
            i <= n,
            n == names.len(),
            wanted@ == device_id@,
            forall|j: int| 0 <= j < i ==> !has_id(names@, j, device_id@),
        decreases n - i,
    {
        match &names[i] {
            Some(name) => {
                let id = get_device_hash(name.as_str());
                if id == wanted {
                    return Ok(DeviceChoice::Listed(i));
                }
            },
            None => {},
        }
        i += 1;
    }
    Err(AudioError::DeviceNotFound)
}

/// The lower-case form of a text.
pub uninterp spec fn lowercase_of(text: Seq<char>) -> Seq<char>;

/// Whether `needle` occurs in `hay` as a run of consecutive characters.
pub open spec fn occurs_in(needle: Seq<char>, hay: Seq<char>) -> bool {
    exists|i: int|
        0 <= i <= hay.len() - needle.len() && #[trigger] hay.subrange(i, i + needle.len())
            == needle
}

/// `str::to_lowercase`: the lower-case form of the text.
#[verifier::external_body]
fn lowercase(text: &str) -> (lower: String)
    ensures
        lower@ == lowercase_of(text@),
{
    text.to_lowercase()
}

/// `str::contains` with a string as the pattern: whether the pattern occurs
/// in the text.
#[verifier::external_body]
fn contains_text(hay: &str, needle: &str) -> (found: bool)
    ensures
        found == occurs_in(needle@, hay@),
{
    hay.contains(needle)
}

/// Whether the device at position `i` of `names` has a name that contains
/// `wanted` when case is ignored.
pub open spec fn name_resembles(names: Seq<Option<String>>, i: int, wanted: Seq<char>) -> bool {
    0 <= i < names.len() && names[i] is Some && occurs_in(
        lowercase_of(wanted),
        lowercase_of(names[i]->0@),
    )
}

/// Whether a name contains `wanted` when case is ignored.
pub fn resembles(name: &str, wanted: &str) -> (found: bool)
    ensures
        found == occurs_in(lowercase_of(wanted@), lowercase_of(name@)),
{
    let name_lower = lowercase(name);
    let wanted_lower = lowercase(wanted);
    contains_text(name_lower.as_str(), wanted_lower.as_str())
}

/// Finds a device by name: the first enumerated device called exactly
/// `name_or_id`, or, if there is none, the first whose name contains it when
/// case is ignored.
///
/// Fails with `DeviceNotFound` when no device matches either way.
pub fn find_device_by_name(names: &Vec<Option<String>>, name_or_id: &str) -> (found: Result<
    usize,
    AudioError,
>)
    ensures
        match found {
            Ok(i) => {
                ||| has_name(names@, i as int, name_or_id@) && forall|j: int|
                    0 <= j < i ==> !has_name(names@, j, name_or_id@)
                ||| (forall|j: int| 0 <= j < names.len() ==> !has_name(names@, j, name_or_id@))
                    && name_resembles(names@, i as int, name_or_id@) && forall|j: int|
                    0 <= j < i ==> !name_resembles(names@, j, name_or_id@)
            },
            Err(e) => e == AudioError::DeviceNotFound && forall|j: int|
                0 <= j < names.len() ==> !has_name(names@, j, name_or_id@) && !name_resembles(
                    names@,
                    j,
                    name_or_id@,
                ),
        },
{
    let wanted = name_or_id.to_owned();
    let n = names.len();
    let mut i: usize = 0;
    while i < n
        invariant
            i <= n,
            n == names.len(),
            wanted@ == name_or_id@,
            forall|j: int| 0 <= j < i ==> !has_name(names@, j, name_or_id@),
        decreases n - i,
    {
        match &names[i] {
            Some(name) => {
                if *name == wanted {
                    return Ok(i);
                }
            },
            None => {},
        }
        i += 1;
    }
    let mut k: usize = 0;
    while k < n
        invariant
            k <= n,
            n == names.len(),
            forall|j: int| 0 <= j < n ==> !has_name(names@, j, name_or_id@),
            forall|j: int| 0 <= j < k ==> !name_resembles(names@, j, name_or_id@),
        decreases n - k,
    {
        match &names[k] {
            Some(name) => {
                if resembles(name.as_str(), name_or_id) {
                    return Ok(k);
                }
            },
            None => {},
        }
        k += 1;
    }
    Err(AudioError::DeviceNotFound)
}

} // verus!

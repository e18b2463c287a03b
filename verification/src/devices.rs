use vstd::prelude::*;
use crate::text::{push_str, string_from_chars};

verus! {

/// An audio output device as shown to the user.
#[derive(Debug)]
pub struct AudioDeviceItem {
    pub name: String,
    pub is_default: bool,
    pub sample_rate: u32,
    pub channels: u16,
}

/// Sample rate and channel count given to a device whose default
/// configuration cannot be read.
pub const FALLBACK_SAMPLE_RATE: u32 = 44100;
pub const FALLBACK_CHANNELS: u16 = 2;

/// The entry for a device named `name`; `config` is its default sample
/// rate and channel count, when they could be read.
pub fn device_item(name: String, default_name: &Option<String>, config: Option<(u32, u16)>) -> (d: AudioDeviceItem)
    ensures
        d.name@ == name@,
        d.is_default == (default_name matches Some(n) && n@ == name@),
        (d.sample_rate, d.channels) == match config {
            Some(c) => c,
            None => (FALLBACK_SAMPLE_RATE, FALLBACK_CHANNELS),
        },
{
    let is_default = match default_name {
        Some(n) => *n == name,
        None => false,
    };
    let (sample_rate, channels) = match config {
        Some(c) => c,
        None => (FALLBACK_SAMPLE_RATE, FALLBACK_CHANNELS),
    };
    AudioDeviceItem { name, is_default, sample_rate, channels }
}

/// Whether a device name that could be read equals `name`.
pub open spec fn is_named(o: Option<String>, name: Seq<char>) -> bool {
    o matches Some(n) && n@ == name
}

/// Index of the first entry that is `Some(name)`.
pub open spec fn first_named(names: Seq<Option<String>>, name: Seq<char>) -> Option<int>
    decreases names.len(),
{
    if names.len() == 0 {
        None
    } else if is_named(names[0], name) {
        Some(0)
    } else {
        match first_named(names.drop_first(), name) {
            Some(i) => Some(i + 1),
            None => None,
        }
    }
}

proof fn lemma_first_named(names: Seq<Option<String>>, name: Seq<char>, i: int)
    requires
        0 <= i <= names.len(),
        forall|j: int| 0 <= j < i ==> !is_named(#[trigger] names[j], name),
        i < names.len() ==> is_named(names[i], name),
    ensures
        first_named(names, name) == if i < names.len() { Some(i) } else { None::<int> },
    decreases names.len(),
{
    if names.len() > 0 && i > 0 {
        assert forall|j: int| 0 <= j < i - 1 implies !is_named(#[trigger] names.drop_first()[j], name) by {
            assert(names.drop_first()[j] == names[j + 1]);
        }
        if i < names.len() {
            assert(names.drop_first()[i - 1] == names[i]);
        }
        lemma_first_named(names.drop_first(), name, i - 1);
    }
}

/// Finds the first device whose name is `name`; devices whose name could
/// not be read are `None` and never match.
pub fn find_named(names: &[Option<String>], name: &str) -> (r: Option<usize>)
    ensures
        match r {
            Some(k) => first_named(names@, name@) == Some(k as int) && k < names@.len(),
            None => first_named(names@, name@) is None,
        },
{
    let target = String::from_str(name);
    let mut i: usize = 0;
    while i < names.len()
        invariant
            i <= names@.len(),
            target@ == name@,
            forall|j: int| 0 <= j < i ==> !is_named(#[trigger] names@[j], name@),
        decreases names@.len() - i,
    {
        match &names[i] {
            Some(n) => {
                if *n == target {
                    proof {
                        lemma_first_named(names@, name@, i as int);
                    }
                    return Some(i);
                }
            },
            None => {},
        }
        i = i + 1;
    }
    proof {
        lemma_first_named(names@, name@, i as int);
    }
    None
}

/// The message given when no device is named `name`.
pub open spec fn device_not_found_text(name: Seq<char>) -> Seq<char> {
    "Audio device '"@ + name + "' not found"@
}

/// Chooses the output device the user asked for by name: the first device
/// of that name, and whether it is the default device; or the error text
/// when there is none.
pub fn pick_output_device(names: &[Option<String>], name: &str, default_name: &Option<String>) -> (r: Result<(usize, bool), String>)
    ensures
        match first_named(names@, name@) {
            Some(i) => r matches Ok((j, d)) && j == i && d == (default_name matches Some(n) && n@ == name@),
            None => r matches Err(e) && e@ == device_not_found_text(name@),
        },
{
    match find_named(names, name) {
        Some(i) => {
            let target = String::from_str(name);
            let is_default = match default_name {
                Some(n) => *n == target,
                None => false,
            };
            Ok((i, is_default))
        },
        None => {
            let mut v: Vec<char> = Vec::new();
            push_str(&mut v, "Audio device '");
            push_str(&mut v, name);
            push_str(&mut v, "' not found");
            assert(v@ =~= device_not_found_text(name@));
            Err(string_from_chars(v.as_slice()))
        },
    }
}

} // verus!

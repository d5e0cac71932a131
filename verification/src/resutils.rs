//! Resource-file inspection: reading the watchface identifier out of a
//! watchface file, and classifying a file by its leading bytes.

use vstd::prelude::*;

use crate::config::ResConfig;
use crate::hexutil::is_utf8;

verus! {

/// Whether a byte is an ASCII decimal digit.
pub open spec fn spec_is_digit(b: u8) -> bool {
    0x30 <= b <= 0x39
}

/// The position of the first digit in a byte string, if any.
pub open spec fn spec_first_digit(field: Seq<u8>, i: int) -> Option<int>
    decreases field.len() - i
        when i >= 0
{
    if i >= field.len() {
        None
    } else if spec_is_digit(field[i]) {
        Some(i)
    } else {
        spec_first_digit(field, i + 1)
    }
}

/// The run of digits starting at a position.
pub open spec fn spec_digit_run_end(field: Seq<u8>, i: int) -> int
    decreases field.len() - i
        when i >= 0
{
    if i >= field.len() {
        i
    } else if spec_is_digit(field[i]) {
        spec_digit_run_end(field, i + 1)
    } else {
        i
    }
}

/// Reads the watchface identifier: within the configured field, the
/// first run of decimal digits, as text. `None` where the file is too
/// short for the field or the field holds no digit.
pub fn get_watchface_id(data: &[u8], config: &ResConfig) -> (r: Option<Vec<u8>>)
    requires
        config.watchface_id_offset + config.watchface_id_field_len <= usize::MAX,
    ensures
        ({
            let offset = config.watchface_id_offset as int;
            let field_len = config.watchface_id_field_len as int;
            if data@.len() < offset + field_len {
                r is None
            } else {
                let field = data@.subrange(offset, offset + field_len);
                match spec_first_digit(field, 0) {
                    Some(start) => r matches Some(v) && v@ == field.subrange(
                        start,
                        spec_digit_run_end(field, start),
                    ),
                    None => r is None,
                }
            }
        }),
{
    let offset = config.watchface_id_offset;
    let field_len = config.watchface_id_field_len;
    if data.len() < offset + field_len {
        return None;
    }
    let field = vstd::slice::slice_subrange(data, offset, offset + field_len);
    let s = match first_digit(field) {
        Some(s) => s,
        None => {
            return None;
        },
    };
    let e = digit_run_end(field, s);
    let digits = vstd::slice::slice_subrange(field, s, e);
    Some(vstd::slice::slice_to_vec(digits))
}

/// The position of the first decimal digit, if any.
fn first_digit(field: &[u8]) -> (r: Option<usize>)
    ensures
        r is Some <==> spec_first_digit(field@, 0) is Some,
        r matches Some(v) ==> spec_first_digit(field@, 0) == Some(v as int) && v < field@.len(),
{
    let n = field.len();
    let mut i: usize = 0;
    while i < n
        invariant
            n == field@.len(),
            i <= n,
            spec_first_digit(field@, i as int) == spec_first_digit(field@, 0),
        decreases n - i,
    {
        if field[i] >= 0x30 && field[i] <= 0x39 {
            proof {
                assert(spec_first_digit(field@, i as int) == Some(i as int));
            }
            return Some(i);
        }
        i = i + 1;
    }
    proof {
        assert(spec_first_digit(field@, n as int) is None);
    }
    None
}

/// The end of the digit run that starts at a position.
fn digit_run_end(field: &[u8], s: usize) -> (e: usize)
    requires
        s <= field@.len(),
    ensures
        s <= e <= field@.len(),
        e as int == spec_digit_run_end(field@, s as int),
{
    let n = field.len();
    let mut e: usize = s;
    while e < n
        invariant
            n == field@.len(),
            s <= e <= n,
            spec_digit_run_end(field@, e as int) == spec_digit_run_end(field@, s as int),
        decreases n - e,
    {
        if !(field[e] >= 0x30 && field[e] <= 0x39) {
            proof {
                assert(spec_digit_run_end(field@, e as int) == e as int);
            }
            return e;
        }
        e = e + 1;
    }
    proof {
        assert(spec_digit_run_end(field@, n as int) == n as int);
    }
    e
}

/// A file's classification by its leading bytes.
#[derive(Debug, Clone, Copy, PartialEq, Eq, Structural)]
pub enum FileType {
    Text,
    Zip,
    Binary,
    Null,
    Abp,
    WatchFace,
    Firmware,
    ThirdPartyApp,
}

/// Whether the needle occurs contiguously in the haystack.
pub open spec fn spec_contains_sub(hay: Seq<u8>, needle: Seq<u8>) -> bool {
    exists|i: int|
        0 <= i <= hay.len() - needle.len() && #[trigger] hay.subrange(i, i + needle.len() as int)
            == needle
}

/// The marker bytes a third-party app package carries near its end.
pub open spec fn spec_toolkit_marker() -> Seq<u8> {
    seq![0x74u8, 0x6fu8, 0x6fu8, 0x6cu8, 0x6bu8, 0x69u8, 0x74u8]
}

fn toolkit_marker() -> (r: Vec<u8>)
    ensures
        r@ == spec_toolkit_marker(),
{
    let mut t: Vec<u8> = Vec::new();
    t.push(0x74);
    t.push(0x6f);
    t.push(0x6f);
    t.push(0x6c);
    t.push(0x6b);
    t.push(0x69);
    t.push(0x74);
    proof {
        assert(t@ =~= spec_toolkit_marker());
    }
    t
}

/// Whether the needle occurs contiguously in the haystack.
pub fn contains_sub(hay: &[u8], needle: &[u8]) -> (r: bool)
    ensures
        r == spec_contains_sub(hay@, needle@),
{
    if needle.len() > hay.len() {
        proof {
            assert(!spec_contains_sub(hay@, needle@));
        }
        return false;
    }
    if needle.len() == 0 {
        proof {
            assert(hay@.subrange(0, 0 + needle@.len() as int) =~= needle@);
        }
        return true;
    }
    let limit = hay.len() - needle.len();
    let mut i: usize = 0;
    while i <= limit
        invariant
            1 <= needle@.len() <= hay@.len(),
            hay@.len() <= usize::MAX,
            limit == hay@.len() - needle@.len(),
            i <= limit + 1,
            forall|j: int|
                0 <= j < i ==> #[trigger] hay@.subrange(j, j + needle@.len() as int) != needle@,
        decreases limit + 1 - i,
    {
        let window = vstd::slice::slice_subrange(hay, i, i + needle.len());
        if crate::mass::bytes_eq(window, needle) {
            proof {
                assert(hay@.subrange(i as int, i as int + needle@.len() as int) == needle@);
            }
            return true;
        }
        i = i + 1;
    }
    proof {
        assert(!spec_contains_sub(hay@, needle@));
    }
    false
}

/// The zip magic.
pub open spec fn spec_zip_magic() -> Seq<u8> {
    seq![0x50u8, 0x4Bu8, 0x03u8, 0x04u8]
}

/// The watchface magic.
pub open spec fn spec_watchface_magic() -> Seq<u8> {
    seq![0x5au8, 0xa5u8, 0x34u8, 0x12u8]
}

/// Classifies file bytes: empty files are null; zip archives are
/// third-party app packages when the toolkit marker sits in the last 256
/// bytes, else plain archives; valid UTF-8 is text; the watchface magic
/// names a watchface; everything else is binary.
pub fn get_file_type(data: &[u8]) -> (r: FileType)
    ensures
        data@.len() == 0 ==> r == FileType::Null,
        data@.len() >= 4 && data@.subrange(0, 4) == spec_zip_magic() ==> (r
            == FileType::ThirdPartyApp || r == FileType::Zip),
        ({
            let tail = if data@.len() > 256 {
                data@.skip(data@.len() - 256)
            } else {
                data@
            };
            data@.len() >= 4 && data@.subrange(0, 4) == spec_zip_magic() ==> (r
                == FileType::ThirdPartyApp <==> spec_contains_sub(tail, spec_toolkit_marker()))
        }),
        data@.len() > 0 && !(data@.len() >= 4 && data@.subrange(0, 4) == spec_zip_magic()) ==> (
        if is_utf8(data@) {
            r == FileType::Text
        } else if data@.len() >= 4 && data@.subrange(0, 4) == spec_watchface_magic() {
            r == FileType::WatchFace
        } else {
            r == FileType::Binary
        }),
{
    if data.len() == 0 {
        return FileType::Null;
    }
    if data.len() >= 4 && data[0] == 0x50 && data[1] == 0x4B && data[2] == 0x03 && data[3] == 0x04 {
        proof {
            assert(data@.subrange(0, 4) =~= spec_zip_magic());
        }
        let tail: &[u8] = if data.len() > 256 {
            vstd::slice::slice_subrange(data, data.len() - 256, data.len())
        } else {
            data
        };
        let marker = toolkit_marker();
        if contains_sub(tail, marker.as_slice()) {
            return FileType::ThirdPartyApp;
        } else {
            return FileType::Zip;
        }
    }
    proof {
        if data@.len() >= 4 {
            assert(data@.subrange(0, 4) =~= seq![data@[0], data@[1], data@[2], data@[3]]);
        }
    }
    if crate::hexutil::utf8_check(data).is_some() {
        return FileType::Text;
    }
    if data.len() >= 4 && data[0] == 0x5a && data[1] == 0xa5 && data[2] == 0x34 && data[3] == 0x12 {
        proof {
            assert(data@.subrange(0, 4) =~= spec_watchface_magic());
        }
        return FileType::WatchFace;
    }
    FileType::Binary
}

} // verus!

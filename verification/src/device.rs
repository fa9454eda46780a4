//! Naming devices: the paths a command line gives, and how the size of a
//! device is found.

use vstd::prelude::*;
use vstd::string::*;
use crate::text::{
    is_decimal, is_decimal_text, lemma_tight_is_trimmed, lemma_trim_idempotent, trim, trimmed,
};

verus! {

/// What a path into the Windows device namespace starts with: `\\.\`.
pub open spec fn device_namespace() -> Seq<char> {
    seq!['\\', '\\', '.', '\\']
}

/// What the path of a physical drive starts with, before its number.
pub open spec fn physical_drive() -> Seq<char> {
    "\\\\.\\PhysicalDrive"@
}

/// The path that a device argument stands for on Windows, surrounding
/// whitespace aside: a path into the device namespace is itself, a bare
/// decimal integer is the physical drive of that number, and anything else
/// is a filesystem path.
pub open spec fn normalized(path: Seq<char>) -> Seq<char> {
    let name = trimmed(path);
    if device_namespace().is_prefix_of(name) {
        name
    } else if is_decimal(name) {
        physical_drive() + name
    } else {
        name
    }
}

/// Whether `name` starts with `\\.\`.
fn in_device_namespace(name: &str) -> (b: bool)
    ensures
        b == device_namespace().is_prefix_of(name@),
{
    let len = name.unicode_len();
    if len < 4 {
        return false;
    }
    let b = name.get_char(0) == '\\' && name.get_char(1) == '\\' && name.get_char(2) == '.'
        && name.get_char(3) == '\\';
    proof {
        let head = name@.subrange(0, 4);
        if b {
            assert(head =~= device_namespace());
        } else {
            assert(head[0] == name@[0] && head[1] == name@[1] && head[2] == name@[2] && head[3]
                == name@[3]);
        }
    }
    b
}

/// Resolves a device argument as Windows names devices: `4` becomes
/// `\\.\PhysicalDrive4`, a path that starts with `\\.\` is kept, and any other
/// text is taken for a filesystem path. Surrounding whitespace is dropped.
pub fn normalize_device_path(path: &str) -> (out: String)
    ensures
        out@ == normalized(path@),
{
    let name = trim(path);
    if in_device_namespace(name) {
        return String::from_str(name);
    }
    if is_decimal_text(name) {
        let mut out = String::from_str("\\\\.\\PhysicalDrive");
        out.append(name);
        return out;
    }
    String::from_str(name)
}

/// A path that was resolved once is resolved: resolving it again changes
/// nothing.
pub proof fn lemma_normalized_idempotent(path: Seq<char>)
    ensures
        normalized(normalized(path)) == normalized(path),
{
    let name = trimmed(path);
    lemma_trim_idempotent(path);
    if !device_namespace().is_prefix_of(name) && is_decimal(name) {
        let drive = physical_drive() + name;
        reveal_strlit("\\\\.\\PhysicalDrive");
        assert(drive.first() == '\\');
        assert(drive.last() == name.last());
        lemma_tight_is_trimmed(drive);
        assert(drive.subrange(0, 4) =~= device_namespace());
    }
}

/// The pieces of `s` between the occurrences of `sep`: one more than there
/// are separators, empty pieces included.
pub open spec fn split_on(s: Seq<char>, sep: char) -> Seq<Seq<char>>
    decreases s.len(),
{
    if s.len() == 0 {
        seq![Seq::<char>::empty()]
    } else {
        let before = split_on(s.drop_last(), sep);
        if s.last() == sep {
            before.push(Seq::<char>::empty())
        } else {
            before.drop_last().push(before.last().push(s.last()))
        }
    }
}

/// The device that one piece of an argument names: the piece without
/// surrounding whitespace, resolved the Windows way where that is asked for.
pub open spec fn device_name(piece: Seq<char>, windows: bool) -> Seq<char> {
    if windows {
        normalized(trimmed(piece))
    } else {
        trimmed(piece)
    }
}

/// The devices that `pieces` name, in order; a piece that is blank names
/// none.
pub open spec fn devices_among(pieces: Seq<Seq<char>>, windows: bool) -> Seq<Seq<char>>
    decreases pieces.len(),
{
    if pieces.len() == 0 {
        Seq::empty()
    } else {
        let before = devices_among(pieces.drop_last(), windows);
        if trimmed(pieces.last()).len() == 0 {
            before
        } else {
            before.push(device_name(pieces.last(), windows))
        }
    }
}

/// The devices that the arguments `args` name, in order: every argument is a
/// comma-separated list.
pub open spec fn devices_in(args: Seq<Seq<char>>, windows: bool) -> Seq<Seq<char>>
    decreases args.len(),
{
    if args.len() == 0 {
        Seq::empty()
    } else {
        devices_in(args.drop_last(), windows) + devices_among(split_on(args.last(), ','), windows)
    }
}

/// The texts of `strings`, in order.
pub open spec fn texts(strings: Seq<String>) -> Seq<Seq<char>> {
    Seq::new(strings.len(), |i: int| strings[i]@)
}

/// A single piece names one device, or none if it is blank.
pub proof fn lemma_devices_among_one(piece: Seq<char>, windows: bool)
    ensures
        devices_among(seq![piece], windows) == if trimmed(piece).len() == 0 {
            Seq::<Seq<char>>::empty()
        } else {
            seq![device_name(piece, windows)]
        },
{
    let none = Seq::<Seq<char>>::empty();
    assert(seq![piece].drop_last() =~= none);
    assert(devices_among(none, windows) =~= none);
    assert(seq![piece].last() == piece);
    if trimmed(piece).len() != 0 {
        assert(none.push(device_name(piece, windows)) =~= seq![device_name(piece, windows)]);
    }
}

/// Appends the device that `piece` names to `devices`, unless it is blank.
fn push_device(devices: &mut Vec<String>, piece: &str, windows: bool)
    ensures
        texts(final(devices)@) == texts(old(devices)@) + devices_among(seq![piece@], windows),
{
    let name = trim(piece);
    proof {
        lemma_devices_among_one(piece@, windows);
    }
    if name.unicode_len() == 0 {
        assert(texts(devices@) =~= texts(old(devices)@) + devices_among(seq![piece@], windows));
        return ;
    }
    let device = if windows {
        normalize_device_path(name)
    } else {
        String::from_str(name)
    };
    devices.push(device);
    assert(texts(devices@) =~= texts(old(devices)@) + devices_among(seq![piece@], windows));
}

/// Naming the devices of some pieces and then of one more piece names the
/// devices of all of them.
pub proof fn lemma_devices_among_push(pieces: Seq<Seq<char>>, piece: Seq<char>, windows: bool)
    ensures
        devices_among(pieces.push(piece), windows) == devices_among(pieces, windows)
            + devices_among(seq![piece], windows),
{
    assert(pieces.push(piece).drop_last() =~= pieces);
    lemma_devices_among_one(piece, windows);
    assert(devices_among(pieces.push(piece), windows) =~= devices_among(pieces, windows)
        + devices_among(seq![piece], windows));
}

/// Appends the devices that the comma-separated list `arg` names.
fn push_devices_of(devices: &mut Vec<String>, arg: &str, windows: bool)
    ensures
        texts(final(devices)@) == texts(old(devices)@) + devices_among(
            split_on(arg@, ','),
            windows,
        ),
{
    let len = arg.unicode_len();
    let ghost mut done: Seq<Seq<char>> = Seq::empty();
    let mut start: usize = 0;
    let mut i: usize = 0;
    proof {
        assert(arg@.take(0) =~= Seq::<char>::empty());
        assert(arg@.subrange(0, 0) =~= Seq::<char>::empty());
        assert(split_on(arg@.take(0), ',') =~= done.push(arg@.subrange(0, 0)));
        assert(devices_among(done, windows) =~= Seq::<Seq<char>>::empty());
        assert(texts(devices@) =~= texts(old(devices)@) + devices_among(done, windows));
    }
    while i < len
        invariant
            len == arg@.len(),
            start <= i <= len,
            split_on(arg@.take(i as int), ',') == done.push(arg@.subrange(start as int, i as int)),
            texts(devices@) == texts(old(devices)@) + devices_among(done, windows),
        decreases len - i,
    {
        let c = arg.get_char(i);
        proof {
            assert(arg@.take(i + 1).drop_last() =~= arg@.take(i as int));
            assert(arg@.take(i + 1).last() == c);
            let before = done.push(arg@.subrange(start as int, i as int));
            assert(before.drop_last() =~= done);
            assert(before.last() == arg@.subrange(start as int, i as int));
        }
        if c == ',' {
            let piece = arg.substring_char(start, i);
            let ghost held = texts(devices@);
            push_device(devices, piece, windows);
            proof {
                lemma_devices_among_push(done, piece@, windows);
                assert(texts(devices@) =~= texts(old(devices)@) + devices_among(
                    done.push(piece@),
                    windows,
                ));
                done = done.push(piece@);
                assert(arg@.subrange(i + 1, i + 1) =~= Seq::<char>::empty());
            }
            start = i + 1;
        } else {
            proof {
                assert(arg@.subrange(start as int, i as int).push(c) =~= arg@.subrange(
                    start as int,
                    i + 1,
                ));
            }
        }
        i += 1;
    }
    let piece = arg.substring_char(start, len);
    push_device(devices, piece, windows);
    proof {
        assert(arg@.take(len as int) =~= arg@);
        lemma_devices_among_push(done, piece@, windows);
        assert(texts(devices@) =~= texts(old(devices)@) + devices_among(
            split_on(arg@, ','),
            windows,
        ));
    }
}

/// The devices that the command line names, in order. Every argument may
/// list several, separated by commas; blank entries are skipped, whitespace
/// around an entry is dropped, and on Windows every entry is resolved as
/// `normalize_device_path` does.
pub fn parse_devices(device_args: &Vec<String>, windows: bool) -> (devices: Vec<String>)
    ensures
        texts(devices@) == devices_in(texts(device_args@), windows),
{
    let mut devices: Vec<String> = Vec::new();
    let mut i: usize = 0;
    proof {
        assert(texts(device_args@).take(0) =~= Seq::<Seq<char>>::empty());
        assert(texts(devices@) =~= devices_in(texts(device_args@).take(0), windows));
    }
    while i < device_args.len()
        invariant
            i <= device_args@.len(),
            texts(devices@) == devices_in(texts(device_args@).take(i as int), windows),
        decreases device_args@.len() - i,
    {
        proof {
            let all = texts(device_args@);
            assert(all.take(i + 1).drop_last() =~= all.take(i as int));
            assert(all.take(i + 1).last() == device_args@[i as int]@);
        }
        push_devices_of(&mut devices, device_args[i].as_str(), windows);
        i += 1;
    }
    proof {
        assert(texts(device_args@).take(i as int) =~= texts(device_args@));
    }
    devices
}

/// The size that the filesystem alone settles for a path: the length of the
/// file there, if there is one and it is not empty. Otherwise the device
/// itself has to be asked.
pub fn regular_file_size(metadata_len: Option<u64>) -> (size: Option<u64>)
    ensures
        size == match metadata_len {
            Some(len) if len > 0 => Some(len),
            _ => None::<u64>,
        },
{
    match metadata_len {
        Some(len) => if len > 0 {
            Some(len)
        } else {
            None
        },
        None => None,
    }
}

} // verus!

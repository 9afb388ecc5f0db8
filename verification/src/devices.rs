//! USB devices and the files on them.

use vstd::prelude::*;
use crate::text::{lines_of, push_char, push_text, text_lines, text_trimmed, trimmed_of};

verus! {

/// The USB interface class of mass storage.
pub const MASS_STORAGE_CLASS: u8 = 0x08;

/// A file or a folder on a storage device.
pub struct FileEntry {
    pub name: String,
    pub is_dir: bool,
    /// What a folder holds; none for a file.
    pub files: Option<Vec<FileEntry>>,
}

/// A connected USB device.
pub struct UsbDevice {
    pub vendor_id: u16,
    pub product_id: u16,
    pub manufacturer: Option<String>,
    pub product: Option<String>,
    pub is_storage: bool,
    /// Where a storage device is mounted.
    pub mount_path: Option<String>,
    /// The files on a mounted storage device.
    pub files: Option<Vec<FileEntry>>,
}

/// Whether a device is a storage device: one of its interfaces has the mass
/// storage class.
pub fn is_usb_storage_device(class_codes: &Vec<u8>) -> (storage: bool)
    ensures
        storage == class_codes@.contains(MASS_STORAGE_CLASS),
{
    let mut i: usize = 0;
    while i < class_codes.len()
        invariant
            i <= class_codes@.len(),
            forall|k: int| 0 <= k < i ==> class_codes@[k] != MASS_STORAGE_CLASS,
        decreases class_codes@.len() - i,
    {
        if class_codes[i] == MASS_STORAGE_CLASS {
            return true;
        }
        i = i + 1;
    }
    false
}

/// Which of two mount paths a storage device is taken to be at: the one
/// that the system lists, else the one that appeared while watching.
pub fn choose_mount(listed: Option<String>, appeared: Option<String>) -> (mount: Option<String>)
    ensures
        mount == (if listed.is_some() {
            listed
        } else {
            appeared
        }),
{
    if listed.is_some() {
        listed
    } else {
        appeared
    }
}

/// Puts together what is known of a device. Only a storage device has a
/// mount path, and only a mounted one has files.
pub fn describe_device(
    vendor_id: u16,
    product_id: u16,
    manufacturer: Option<String>,
    product: Option<String>,
    class_codes: &Vec<u8>,
    mount: Option<String>,
    files: Option<Vec<FileEntry>>,
) -> (device: UsbDevice)
    ensures
        device.vendor_id == vendor_id,
        device.product_id == product_id,
        device.manufacturer == manufacturer,
        device.product == product,
        device.is_storage == class_codes@.contains(MASS_STORAGE_CLASS),
        device.mount_path == (if device.is_storage {
            mount
        } else {
            None
        }),
        device.files == (if device.is_storage && mount.is_some() {
            files
        } else {
            None
        }),
{
    let is_storage = is_usb_storage_device(class_codes);
    let mounted = is_storage && mount.is_some();
    UsbDevice {
        vendor_id,
        product_id,
        manufacturer,
        product,
        is_storage,
        mount_path: if is_storage {
            mount
        } else {
            None
        },
        files: if mounted {
            files
        } else {
            None
        },
    }
}

/// How one entry stands to another in a listing.
#[derive(Clone, Copy, Debug, PartialEq, Eq, Structural)]
pub enum Rank {
    Before,
    Same,
    After,
}

/// The order of a listing: folders before files, and within each kind by
/// name. `by_name` is how the first name stands to the second.
pub fn entry_rank(first_is_dir: bool, second_is_dir: bool, by_name: Rank) -> (rank: Rank)
    ensures
        rank == (if first_is_dir == second_is_dir {
            by_name
        } else if first_is_dir {
            Rank::Before
        } else {
            Rank::After
        }),
{
    if first_is_dir == second_is_dir {
        by_name
    } else if first_is_dir {
        Rank::Before
    } else {
        Rank::After
    }
}

/// Makes the entry of a file or folder. Only a folder holds entries.
pub fn file_entry(name: String, is_dir: bool, children: Option<Vec<FileEntry>>) -> (entry: FileEntry)
    ensures
        entry.name == name,
        entry.is_dir == is_dir,
        entry.files == (if is_dir {
            children
        } else {
            None
        }),
{
    FileEntry {
        name,
        is_dir,
        files: if is_dir {
            children
        } else {
            None
        },
    }
}

/// The path of a removable drive from one trimmed line of the system's
/// listing: the drive's name with a backslash after it. An empty line names
/// no drive.
pub fn drive_path(line: &str) -> (path: Option<String>)
    ensures
        path.is_some() <==> line@.len() > 0,
        path.is_some() ==> path.unwrap()@ == line@.push('\\'),
{
    if line.is_empty() {
        None
    } else {
        let mut path = String::new();
        push_text(&mut path, line);
        push_char(&mut path, '\\');
        assert(path@ =~= line@.push('\\'));
        Some(path)
    }
}

/// The drive paths that the lines of a listing name: the first line is the
/// heading, and each later line that is not blank names one drive.
pub open spec fn drives_in(lines: Seq<Seq<char>>) -> Seq<Seq<char>>
    decreases lines.len(),
{
    if lines.len() <= 1 {
        Seq::empty()
    } else if trimmed_of(lines.last()).len() > 0 {
        drives_in(lines.drop_last()).push(trimmed_of(lines.last()).push('\\'))
    } else {
        drives_in(lines.drop_last())
    }
}

/// The views of a sequence of strings.
pub open spec fn paths_of(paths: Seq<String>) -> Seq<Seq<char>> {
    Seq::new(paths.len(), |i: int| paths[i]@)
}

/// Reads the system's listing of removable drives: the path of each drive
/// listed under the heading, in order.
pub fn parse_drive_paths(listing: &str) -> (paths: Vec<String>)
    ensures
        paths_of(paths@) == drives_in(lines_of(listing@)),
{
    let lines = text_lines(listing);
    let ghost all = lines_of(listing@);
    let mut paths: Vec<String> = Vec::new();
    let n: usize = lines.len();
    if n <= 1 {
        assert(paths_of(paths@) =~= drives_in(all));
        return paths;
    }
    let mut i: usize = 1;
    assert(paths_of(paths@) =~= drives_in(all.take(1)));
    while i < n
        invariant
            1 <= i <= n,
            n == lines@.len(),
            n == all.len(),
            forall|k: int| 0 <= k < n ==> (#[trigger] lines@[k])@ == all[k],
            paths_of(paths@) == drives_in(all.take(i as int)),
        decreases n - i,
    {
        proof {
            assert(all.take(i + 1).drop_last() =~= all.take(i as int));
            assert(all.take(i + 1).last() == all[i as int]);
        }
        let ghost before = paths@;
        match drive_path(text_trimmed(lines[i].as_str())) {
            Some(path) => {
                paths.push(path);
                assert(paths_of(paths@) =~= paths_of(before).push(
                    trimmed_of(all[i as int]).push('\\'),
                ));
            },
            None => {},
        }
        i = i + 1;
    }
    assert(all.take(n as int) =~= all);
    paths
}

} // verus!

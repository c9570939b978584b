//! Classification of the device field of an fstab line by its prefix.

use vstd::prelude::*;

verus! {

/// Types of device name
///
/// Devices have 3 possible types of names:
///
/// * UUID (F1C1-3AC0)
/// * LABEL (MyDisk)
/// * Mount Point (/dev/sda)
#[derive(Debug, Clone)]
pub enum Device {
    Uuid(String),
    Label(String),
    MountPoint(String),
    PartUuid(String),
    PartLabel(String),
}

/// The model of a classified device name: the variant together with the
/// identifier text it carries.
pub enum DeviceModel {
    Uuid(Seq<char>),
    Label(Seq<char>),
    MountPoint(Seq<char>),
    PartUuid(Seq<char>),
    PartLabel(Seq<char>),
}

impl View for Device {
    type V = DeviceModel;

    open spec fn view(&self) -> DeviceModel {
        match self {
            Device::Uuid(s) => DeviceModel::Uuid(s@),
            Device::Label(s) => DeviceModel::Label(s@),
            Device::MountPoint(s) => DeviceModel::MountPoint(s@),
            Device::PartUuid(s) => DeviceModel::PartUuid(s@),
            Device::PartLabel(s) => DeviceModel::PartLabel(s@),
        }
    }
}

/// How a raw device field is classified: first matching prefix wins, and a
/// field with no recognized prefix is a mount point, kept unchanged.
///
/// Note: for `PARTUUID=` and `PARTLABEL=` only 5 and 6 characters are
/// stripped, fewer than the prefixes' 9 and 10, so part of the prefix stays
/// in the payload.  The quirk is deliberate: correcting the strip lengths
/// would change the observable payloads for those two variants.
pub open spec fn classify_device(s: Seq<char>) -> DeviceModel {
    if "UUID="@.is_prefix_of(s) {
        DeviceModel::Uuid(s.skip(5))
    } else if "LABEL="@.is_prefix_of(s) {
        DeviceModel::Label(s.skip(6))
    } else if "PARTUUID="@.is_prefix_of(s) {
        DeviceModel::PartUuid(s.skip(5))
    } else if "PARTLABEL="@.is_prefix_of(s) {
        DeviceModel::PartLabel(s.skip(6))
    } else {
        DeviceModel::MountPoint(s)
    }
}

/// Character-by-character prefix test.
fn starts_with_lit(s: &str, p: &str) -> (b: bool)
    ensures
        b == p@.is_prefix_of(s@),
{
    let m = p.unicode_len();
    let n = s.unicode_len();
    if m > n {
        return false;
    }
    let mut k: usize = 0;
    while k < m
        invariant
            m == p@.len(),
            n == s@.len(),
            m <= n,
            0 <= k <= m,
            forall|j: int| 0 <= j < k ==> p@[j] == s@[j],
        decreases m - k,
    {
        if p.get_char(k) != s.get_char(k) {
            proof {
                assert(p@[k as int] != s@.subrange(0, m as int)[k as int]);
            }
            return false;
        }
        k = k + 1;
    }
    proof {
        assert(p@ =~= s@.subrange(0, m as int));
    }
    true
}

/// Classifies a raw device field, as [`classify_device`] describes.
pub fn parse_device(name: &str) -> (d: Device)
    ensures
        d@ == classify_device(name@),
{
    proof {
        reveal_strlit("UUID=");
        reveal_strlit("LABEL=");
        reveal_strlit("PARTUUID=");
        reveal_strlit("PARTLABEL=");
    }
    let n = name.unicode_len();
    if starts_with_lit(name, "UUID=") {
        proof {
            assert(name@.subrange(5, name@.len() as int) =~= name@.skip(5));
        }
        Device::Uuid(name.substring_char(5, n).to_owned())
    } else if starts_with_lit(name, "LABEL=") {
        proof {
            assert(name@.subrange(6, name@.len() as int) =~= name@.skip(6));
        }
        Device::Label(name.substring_char(6, n).to_owned())
    } else if starts_with_lit(name, "PARTUUID=") {
        proof {
            assert(name@.subrange(5, name@.len() as int) =~= name@.skip(5));
        }
        Device::PartUuid(name.substring_char(5, n).to_owned())
    } else if starts_with_lit(name, "PARTLABEL=") {
        proof {
            assert(name@.subrange(6, name@.len() as int) =~= name@.skip(6));
        }
        Device::PartLabel(name.substring_char(6, n).to_owned())
    } else {
        Device::MountPoint(name.to_owned())
    }
}

} // verus!

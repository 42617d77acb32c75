//! Device selection at startup: the device listing, selection by bus
//! address or by list position, and the search for an integrated device.
//! Acquisition outcomes are handed in; their I/O lives outside the crate.

use crate::device::DevicePath;
use crate::fmt::{dec_str, hex_str, push_dec, push_hex_prefixed};
use vstd::prelude::*;
use vstd::string::StringExecFns;

verus! {

/// Why no device could be selected.
#[derive(Clone, Copy, PartialEq, Eq, Structural, Debug)]
pub enum SelectError {
    /// No listed device carries the requested bus address.
    PciNotFound,
    /// The requested list position is out of bounds.
    IndexOutOfBounds,
    /// No reachable device reports itself as integrated.
    NoApu,
}

/// What the listing shows of one device whose handle could be acquired.
pub struct DeviceListEntry {
    pub name: String,
    pub device_id: u64,
    pub revision_id: u64,
}

/// One listing block: position, name and identity; nothing for a device
/// whose handle could not be acquired.
pub open spec fn list_entry_block(i: nat, e: Option<DeviceListEntry>) -> Seq<char> {
    match e {
        Some(d) => "#"@ + dec_str(i) + ":\n    "@ + d.name@ + " ("@ + "0x"@ + hex_str(
            d.device_id as nat,
        ) + "."@ + "0x"@ + hex_str(d.revision_id as nat) + ")\n"@,
        None => Seq::empty(),
    }
}

/// The whole listing: every acquirable device's block, in order, under its
/// original position.
pub open spec fn device_list_text(entries: Seq<Option<DeviceListEntry>>) -> Seq<char>
    decreases entries.len(),
{
    if entries.len() == 0 {
        Seq::empty()
    } else {
        device_list_text(entries.drop_last()) + list_entry_block(
            (entries.len() - 1) as nat,
            entries.last(),
        )
    }
}

/// Formats the device listing. A device whose acquisition failed is
/// skipped; its position still counts.
pub fn device_list(entries: &Vec<Option<DeviceListEntry>>) -> (r: String)
    ensures
        r@ == device_list_text(entries@),
{
    let mut s = String::new();
    let mut i: usize = 0;
    while i < entries.len()
        invariant
            i <= entries@.len(),
            s@ == device_list_text(entries@.take(i as int)),
        decreases entries@.len() - i,
    {
        proof {
            assert(entries@.take(i + 1).drop_last() =~= entries@.take(i as int));
            assert(entries@.take(i + 1).last() == entries@[i as int]);
        }
        let ghost pre = s@;
        match &entries[i] {
            Some(d) => {
                s.append("#");
                push_dec(&mut s, i as u64);
                s.append(":\n    ");
                s.append(d.name.as_str());
                s.append(" (");
                push_hex_prefixed(&mut s, d.device_id, 0);
                s.append(".");
                push_hex_prefixed(&mut s, d.revision_id, 0);
                s.append(")\n");
                proof {
                    assert(s@ =~= pre + list_entry_block(i as nat, entries@[i as int]));
                }
            },
            None => {
                proof {
                    assert(s@ =~= pre + list_entry_block(i as nat, entries@[i as int]));
                }
            },
        }
        i = i + 1;
    }
    proof {
        assert(entries@.take(entries@.len() as int) =~= entries@);
    }
    s
}

/// Two identities describe the same device.
pub open spec fn path_like(a: DevicePath, b: DevicePath) -> bool {
    &&& a.pci == b.pci
    &&& a.pci_bus@ == b.pci_bus@
    &&& a.device_id == b.device_id
    &&& a.revision_id == b.revision_id
    &&& a.device_name@ == b.device_name@
}

/// The position of the first listed device with bus address `p`, or the
/// list's length when none has it.
pub open spec fn first_pci_index(s: Seq<DevicePath>, p: u64) -> int
    decreases s.len(),
{
    if s.len() == 0 {
        0
    } else if s[0].pci == p {
        0
    } else {
        1 + first_pci_index(s.drop_first(), p)
    }
}

/// Whether some listed device carries bus address `p`.
pub open spec fn list_has_pci(s: Seq<DevicePath>, p: u64) -> bool {
    exists|i: int| 0 <= i < s.len() && s[i].pci == p
}

/// The first index is in bounds exactly when the address is listed, and
/// it points at the first device with it.
pub proof fn lemma_first_pci_index(s: Seq<DevicePath>, p: u64)
    ensures
        0 <= first_pci_index(s, p) <= s.len(),
        list_has_pci(s, p) <==> first_pci_index(s, p) < s.len(),
        first_pci_index(s, p) < s.len() ==> s[first_pci_index(s, p)].pci == p,
        forall|t: int| 0 <= t < first_pci_index(s, p) ==> (#[trigger] s[t]).pci != p,
    decreases s.len(),
{
    if s.len() > 0 && s[0].pci != p {
        lemma_first_pci_index(s.drop_first(), p);
        let f = first_pci_index(s, p);
        if list_has_pci(s, p) {
            let i = choose|i: int| 0 <= i < s.len() && s[i].pci == p;
            assert(s.drop_first()[i - 1].pci == p);
        }
        if first_pci_index(s.drop_first(), p) < s.drop_first().len() {
            assert(s[f] == s.drop_first()[f - 1]);
            assert(s.drop_first()[first_pci_index(s.drop_first(), p)].pci == p);
        }
        assert forall|t: int| 0 <= t < f implies (#[trigger] s[t]).pci != p by {
            if t > 0 {
                assert(s[t] == s.drop_first()[t - 1]);
            }
        }
    }
}

/// Which device the startup options select: the first with the requested
/// bus address, the one at the requested position, or the first listed.
pub open spec fn selected_device(
    pci: Option<u64>,
    instance: Option<usize>,
    s: Seq<DevicePath>,
) -> Result<DevicePath, SelectError> {
    match pci {
        Some(p) => if list_has_pci(s, p) {
            Ok(s[first_pci_index(s, p)])
        } else {
            Err(SelectError::PciNotFound)
        },
        None => match instance {
            Some(i) => if i < s.len() {
                Ok(s[i as int])
            } else {
                Err(SelectError::IndexOutOfBounds)
            },
            None => Ok(s[0]),
        },
    }
}

/// Selects the monitored device from the startup options: by bus address
/// first, else by list position, else the first device. Errs exactly when
/// the requested address is unlisted or the position out of bounds; the
/// caller reports that and exits, as the selection is unrecoverable.
pub fn from_main_opt(pci: Option<u64>, instance: Option<usize>, list: &Vec<DevicePath>) -> (r:
    Result<DevicePath, SelectError>)
    requires
        list@.len() > 0,
    ensures
        r is Ok <==> selected_device(pci, instance, list@) is Ok,
        r matches Ok(d) ==> path_like(d, selected_device(pci, instance, list@).unwrap()),
        r matches Err(e) ==> Err::<DevicePath, SelectError>(e) == selected_device(
            pci,
            instance,
            list@,
        ),
{
    match pci {
        Some(p) => {
            proof {
                lemma_first_pci_index(list@, p);
            }
            let mut i: usize = 0;
            while i < list.len()
                invariant
                    pci == Some(p),
                    i <= list@.len(),
                    forall|t: int| 0 <= t < i ==> (#[trigger] list@[t]).pci != p,
                    first_pci_index(list@, p) >= i,
                    0 <= first_pci_index(list@, p) <= list@.len(),
                    list_has_pci(list@, p) <==> first_pci_index(list@, p) < list@.len(),
                    first_pci_index(list@, p) < list@.len() ==> list@[first_pci_index(
                        list@,
                        p,
                    )].pci == p,
                    forall|t: int|
                        0 <= t < first_pci_index(list@, p) ==> (#[trigger] list@[t]).pci != p,
                decreases list@.len() - i,
            {
                if list[i].pci == p {
                    proof {
                        assert(first_pci_index(list@, p) == i);
                    }
                    return Ok(list[i].duplicate());
                }
                i = i + 1;
                proof {
                    if first_pci_index(list@, p) < i {
                        assert(list@[first_pci_index(list@, p)].pci == p);
                    }
                }
            }
            Err(SelectError::PciNotFound)
        },
        None => match instance {
            Some(i) => {
                if i < list.len() {
                    Ok(list[i].duplicate())
                } else {
                    Err(SelectError::IndexOutOfBounds)
                }
            },
            None => Ok(list[0].duplicate()),
        },
    }
}

/// The position of the first device probed as integrated: reachable, with
/// its probe reporting `true`.
pub open spec fn first_apu_index(s: Seq<(DevicePath, Option<bool>)>) -> int
    decreases s.len(),
{
    if s.len() == 0 {
        0
    } else if s[0].1 == Some(true) {
        0
    } else {
        1 + first_apu_index(s.drop_first())
    }
}

/// Whether some device is probed as integrated.
pub open spec fn list_has_apu(s: Seq<(DevicePath, Option<bool>)>) -> bool {
    exists|i: int| 0 <= i < s.len() && s[i].1 == Some(true)
}

pub proof fn lemma_first_apu_index(s: Seq<(DevicePath, Option<bool>)>)
    ensures
        0 <= first_apu_index(s) <= s.len(),
        list_has_apu(s) <==> first_apu_index(s) < s.len(),
        first_apu_index(s) < s.len() ==> s[first_apu_index(s)].1 == Some(true),
        forall|t: int| 0 <= t < first_apu_index(s) ==> (#[trigger] s[t]).1 != Some(true),
    decreases s.len(),
{
    if s.len() > 0 && s[0].1 != Some(true) {
        lemma_first_apu_index(s.drop_first());
        let f = first_apu_index(s);
        if list_has_apu(s) {
            let i = choose|i: int| 0 <= i < s.len() && s[i].1 == Some(true);
            assert(s.drop_first()[i - 1].1 == Some(true));
        }
        if first_apu_index(s.drop_first()) < s.drop_first().len() {
            assert(s[f] == s.drop_first()[f - 1]);
            assert(s.drop_first()[first_apu_index(s.drop_first())].1 == Some(true));
        }
        assert forall|t: int| 0 <= t < f implies (#[trigger] s[t]).1 != Some(true) by {
            if t > 0 {
                assert(s[t] == s.drop_first()[t - 1]);
            }
        }
    }
}

/// Selects the first device probed as integrated. Each device comes with
/// its probe's outcome: `None` when it could not be reached, `Some` with
/// whether it is integrated. Errs exactly when no device is probed as
/// integrated; an unreachable device is skipped, never an error.
pub fn select_apu(probed: &Vec<(DevicePath, Option<bool>)>) -> (r: Result<
    DevicePath,
    SelectError,
>)
    ensures
        r is Ok <==> list_has_apu(probed@),
        r matches Ok(d) ==> path_like(d, probed@[first_apu_index(probed@)].0),
        r matches Err(e) ==> e == SelectError::NoApu,
{
    proof {
        lemma_first_apu_index(probed@);
    }
    let mut i: usize = 0;
    while i < probed.len()
        invariant
            i <= probed@.len(),
            forall|t: int| 0 <= t < i ==> (#[trigger] probed@[t]).1 != Some(true),
            first_apu_index(probed@) >= i,
            0 <= first_apu_index(probed@) <= probed@.len(),
            list_has_apu(probed@) <==> first_apu_index(probed@) < probed@.len(),
            first_apu_index(probed@) < probed@.len() ==> probed@[first_apu_index(probed@)].1
                == Some(true),
            forall|t: int| 0 <= t < first_apu_index(probed@) ==> (#[trigger] probed@[t]).1 != Some(
                true,
            ),
        decreases probed@.len() - i,
    {
        let hit = match probed[i].1 {
            Some(b) => b,
            None => false,
        };
        if hit {
            proof {
                if first_apu_index(probed@) < i {
                    assert(probed@[first_apu_index(probed@)].1 == Some(true));
                }
                assert(first_apu_index(probed@) == i);
            }
            return Ok(probed[i].0.duplicate());
        }
        i = i + 1;
        proof {
            if first_apu_index(probed@) < i {
                assert(probed@[first_apu_index(probed@)].1 == Some(true));
            }
        }
    }
    Err(SelectError::NoApu)
}

} // verus!

//! Flattened device tree (FDT) parsing.
//!
//! The parser walks the blob's structure block token by token and builds a
//! flat table of devices with parent links, each device's properties, and an
//! index from phandle values to device-table positions. Its whole behaviour
//! is pinned to the recursive specification [`spec_parse_dtb`]; the
//! executable parser returns exactly what the specification says, error
//! included. Out-of-bounds reads and capacity overruns, which a blob of
//! malformed or oversized content would otherwise provoke, surface as
//! explicit errors.

use vstd::prelude::*;
use vstd::slice::slice_subrange;
use vstd::slice::slice_to_vec;

use crate::bytes::align4;
use crate::bytes::align4_up;
use crate::bytes::be_u32_at;
use crate::bytes::cstr_at;
use crate::bytes::find_nul;
use crate::bytes::has_nul;
use crate::bytes::read_be_u32;
use crate::device::phandle_bytes;
use crate::device::phandle_name;
use crate::device::bytes_eq;
use crate::device::PlatformDevice;
use crate::device::Property;
use crate::device::SpecDevice;
use crate::device::SpecProp;
use crate::device::MAX_PROPS;

verus! {

/// Magic number opening every device tree blob.
pub const MAGIC: u32 = 0xd00dfeed;

/// Token marking the start of a node.
pub const FDT_BEGIN_NODE: u32 = 0x00000001;

/// Token marking the end of a node.
pub const FDT_END_NODE: u32 = 0x00000002;

/// Token marking a property entry.
pub const FDT_PROP: u32 = 0x00000003;

/// Token for padding; carries nothing.
pub const FDT_NOP: u32 = 0x00000004;

/// Token marking the end of the structure block.
pub const FDT_END: u32 = 0x00000009;

/// Most devices the device table can hold.
pub const MAX_DEVICES: usize = 256;

/// Most phandle mappings the index can hold.
pub const MAX_HANDLES: usize = 32;

/// Deepest node nesting the parser accepts.
pub const MAX_DEPTH: usize = 10;

/// How a blob can fail to parse.
#[derive(Clone, Copy, PartialEq, Eq, Structural, Debug)]
pub enum DtbError {
    /// The header's magic number is not [`MAGIC`].
    BadMagic,
    /// A read would pass the end of the blob.
    Truncated,
    /// A structure-block token is none of the five known ones.
    UnknownToken,
    /// A node end or a property appears outside any open node.
    Unbalanced,
    /// A fixed capacity (devices, properties, phandles, depth) would overflow.
    CapacityExceeded,
}

/// Flattened device tree header: the first forty bytes of the blob, all
/// fields big-endian.
pub struct FdtHeader {
    pub magic: u32,
    pub totalsize: u32,
    pub off_dt_struct: u32,
    pub off_dt_strings: u32,
    pub off_mem_rsvmap: u32,
    pub version: u32,
    pub last_comp_version: u32,
    pub boot_cpuid_phys: u32,
    pub size_dt_strings: u32,
    pub size_dt_struct: u32,
}

impl FdtHeader {
    /// Reads the ten header fields from the front of the blob.
    pub fn from_be_bytes(blob: &[u8]) -> (h: FdtHeader)
        requires
            blob@.len() >= 40,
        ensures
            h.magic == be_u32_at(blob@, 0x00),
            h.totalsize == be_u32_at(blob@, 0x04),
            h.off_dt_struct == be_u32_at(blob@, 0x08),
            h.off_dt_strings == be_u32_at(blob@, 0x0C),
            h.off_mem_rsvmap == be_u32_at(blob@, 0x10),
            h.version == be_u32_at(blob@, 0x14),
            h.last_comp_version == be_u32_at(blob@, 0x18),
            h.boot_cpuid_phys == be_u32_at(blob@, 0x1C),
            h.size_dt_strings == be_u32_at(blob@, 0x20),
            h.size_dt_struct == be_u32_at(blob@, 0x24),
    {
        FdtHeader {
            magic: read_be_u32(blob, 0x00),
            totalsize: read_be_u32(blob, 0x04),
            off_dt_struct: read_be_u32(blob, 0x08),
            off_dt_strings: read_be_u32(blob, 0x0C),
            off_mem_rsvmap: read_be_u32(blob, 0x10),
            version: read_be_u32(blob, 0x14),
            last_comp_version: read_be_u32(blob, 0x18),
            boot_cpuid_phys: read_be_u32(blob, 0x1C),
            size_dt_strings: read_be_u32(blob, 0x20),
            size_dt_struct: read_be_u32(blob, 0x24),
        }
    }
}

/// Header preceding each property's value in the structure block: the
/// value's byte length and the property name's offset in the strings block.
pub struct FdtPropHeader {
    pub len: u32,
    pub nameoff: u32,
}

impl FdtPropHeader {
    /// Reads the eight-byte property header at `off`.
    pub fn from_be_bytes(blob: &[u8], off: usize) -> (h: FdtPropHeader)
        requires
            off + 8 <= blob@.len(),
        ensures
            h.len == be_u32_at(blob@, off as int),
            h.nameoff == be_u32_at(blob@, off + 4),
    {
        let n = blob.len();
        FdtPropHeader { len: read_be_u32(blob, off), nameoff: read_be_u32(blob, off + 4) }
    }
}

/// The parser's working state: devices discovered so far, the phandle
/// index, and the stack of open nodes (device-table indices).
pub ghost struct SpecParseState {
    pub devices: Seq<SpecDevice>,
    pub phandles: Seq<(u32, int)>,
    pub stack: Seq<int>,
}

impl SpecParseState {
    /// The state before any token is read.
    pub open spec fn init() -> SpecParseState {
        SpecParseState { devices: Seq::empty(), phandles: Seq::empty(), stack: Seq::empty() }
    }
}

/// One pass over the structure block `s` from offset `off` in state `st`,
/// with property names resolved in the strings block `strs`. Mirrors the
/// token walk byte for byte: node begin pushes a device whose parent is the
/// top of the stack; a property is appended to the top device, a `"phandle"`
/// property also extends the phandle index; node end seals the top device's
/// property count and pops.
pub open spec fn spec_parse_struct(
    s: Seq<u8>,
    strs: Seq<u8>,
    off: int,
    st: SpecParseState,
) -> Result<SpecParseState, DtbError>
    decreases s.len() - off when 0 <= off <= s.len()
{
    if off + 4 > s.len() {
        Err(DtbError::Truncated)
    } else {
        let token = be_u32_at(s, off);
        if token == FDT_BEGIN_NODE {
            if !has_nul(s, off + 4) {
                Err(DtbError::Truncated)
            } else if st.devices.len() >= MAX_DEVICES {
                Err(DtbError::CapacityExceeded)
            } else if st.stack.len() >= MAX_DEPTH {
                Err(DtbError::CapacityExceeded)
            } else {
                let name = cstr_at(s, off + 4);
                let parent = if st.stack.len() > 0 {
                    Some(st.stack.last())
                } else {
                    None
                };
                let dev = SpecDevice { parent, name, props: Seq::empty(), prop_count: 0 };
                let idx = st.devices.len() as int;
                let st2 = SpecParseState {
                    devices: st.devices.push(dev),
                    phandles: st.phandles,
                    stack: st.stack.push(idx),
                };
                let off2 = align4(off + 4 + name.len() + 1);
                if off2 > s.len() {
                    Err(DtbError::Truncated)
                } else {
                    spec_parse_struct(s, strs, off2, st2)
                }
            }
        } else if token == FDT_END_NODE {
            if st.stack.len() == 0 {
                Err(DtbError::Unbalanced)
            } else {
                let top = st.stack.last();
                let dev = st.devices[top];
                let sealed = SpecDevice { prop_count: dev.props.len() as int, ..dev };
                let st2 = SpecParseState {
                    devices: st.devices.update(top, sealed),
                    phandles: st.phandles,
                    stack: st.stack.drop_last(),
                };
                spec_parse_struct(s, strs, off + 4, st2)
            }
        } else if token == FDT_PROP {
            if st.stack.len() == 0 {
                Err(DtbError::Unbalanced)
            } else if off + 12 > s.len() {
                Err(DtbError::Truncated)
            } else {
                let plen = be_u32_at(s, off + 4) as int;
                let nameoff = be_u32_at(s, off + 8) as int;
                if off + 12 + plen > s.len() {
                    Err(DtbError::Truncated)
                } else if nameoff > strs.len() || !has_nul(strs, nameoff) {
                    Err(DtbError::Truncated)
                } else {
                    let top = st.stack.last();
                    let dev = st.devices[top];
                    if dev.props.len() >= MAX_PROPS {
                        Err(DtbError::CapacityExceeded)
                    } else {
                        let pname = cstr_at(strs, nameoff);
                        let value = s.subrange(off + 12, off + 12 + plen);
                        let dev2 = SpecDevice {
                            props: dev.props.push(SpecProp { name: pname, value }),
                            ..dev
                        };
                        if pname == phandle_bytes() {
                            if off + 16 > s.len() {
                                Err(DtbError::Truncated)
                            } else if st.phandles.len() >= MAX_HANDLES {
                                Err(DtbError::CapacityExceeded)
                            } else {
                                let st2 = SpecParseState {
                                    devices: st.devices.update(top, dev2),
                                    phandles: st.phandles.push((be_u32_at(s, off + 12), top)),
                                    stack: st.stack,
                                };
                                let off2 = align4(off + 12 + plen);
                                if off2 > s.len() {
                                    Err(DtbError::Truncated)
                                } else {
                                    spec_parse_struct(s, strs, off2, st2)
                                }
                            }
                        } else {
                            let st2 = SpecParseState {
                                devices: st.devices.update(top, dev2),
                                phandles: st.phandles,
                                stack: st.stack,
                            };
                            let off2 = align4(off + 12 + plen);
                            if off2 > s.len() {
                                Err(DtbError::Truncated)
                            } else {
                                spec_parse_struct(s, strs, off2, st2)
                            }
                        }
                    }
                }
            }
        } else if token == FDT_NOP {
            spec_parse_struct(s, strs, off + 4, st)
        } else if token == FDT_END {
            Ok(st)
        } else {
            Err(DtbError::UnknownToken)
        }
    }
}

/// What parsing the whole blob yields: header checks, then the token walk
/// over the structure block.
pub open spec fn spec_parse_dtb(blob: Seq<u8>) -> Result<SpecParseState, DtbError> {
    if blob.len() < 40 {
        Err(DtbError::Truncated)
    } else if be_u32_at(blob, 0) != MAGIC {
        Err(DtbError::BadMagic)
    } else {
        let off_struct = be_u32_at(blob, 8) as int;
        let off_strings = be_u32_at(blob, 12) as int;
        if off_struct > blob.len() || off_strings > blob.len() {
            Err(DtbError::Truncated)
        } else {
            spec_parse_struct(
                blob.subrange(off_struct, blob.len() as int),
                blob.subrange(off_strings, blob.len() as int),
                0,
                SpecParseState::init(),
            )
        }
    }
}

/// The flat table of devices discovered from the blob, with the phandle
/// index built alongside it.
pub struct DeviceTable {
    /// All devices, in discovery order; parents precede their children.
    pub devices: Vec<PlatformDevice>,
    /// Mapping from phandle values to device-table indices.
    pub phandles: Vec<(u32, usize)>,
}

/// Mathematical image of a [`DeviceTable`].
pub ghost struct SpecTable {
    pub devices: Seq<SpecDevice>,
    pub phandles: Seq<(u32, int)>,
}

/// The per-device mathematical image of a device list.
pub open spec fn devices_view(v: Seq<PlatformDevice>) -> Seq<SpecDevice> {
    Seq::new(v.len(), |i: int| v[i]@)
}

/// The mathematical image of a phandle index.
pub open spec fn phandles_view(v: Seq<(u32, usize)>) -> Seq<(u32, int)> {
    Seq::new(v.len(), |i: int| (v[i].0, v[i].1 as int))
}

/// The mathematical image of the stack of open nodes.
pub open spec fn stack_view(v: Seq<usize>) -> Seq<int> {
    Seq::new(v.len(), |i: int| v[i] as int)
}

impl View for DeviceTable {
    type V = SpecTable;

    open spec fn view(&self) -> SpecTable {
        SpecTable { devices: devices_view(self.devices@), phandles: phandles_view(self.phandles@) }
    }
}

/// Every parent link points strictly backwards in the table.
pub open spec fn parents_ok(devs: Seq<SpecDevice>) -> bool {
    forall|i: int|
        0 <= i < devs.len() ==> (#[trigger] devs[i].parent matches Some(p) ==> 0 <= p < i)
}

/// Every device respects its sealed count and its property capacity.
pub open spec fn devices_ok(devs: Seq<SpecDevice>) -> bool {
    forall|i: int|
        0 <= i < devs.len() ==> (#[trigger] devs[i]).prop_count <= devs[i].props.len()
            <= MAX_PROPS
}

/// Every phandle entry indexes one of the first `n` devices.
pub open spec fn phandles_ok(phs: Seq<(u32, int)>, n: int) -> bool {
    forall|i: int| 0 <= i < phs.len() ==> 0 <= (#[trigger] phs[i]).1 < n
}

impl DeviceTable {
    /// Parent links point backwards, every device respects its capacity, and
    /// every phandle entry indexes a device.
    pub open spec fn wf(&self) -> bool {
        &&& self@.devices.len() <= MAX_DEVICES
        &&& self@.phandles.len() <= MAX_HANDLES
        &&& parents_ok(self@.devices)
        &&& forall|i: int|
            0 <= i < self@.devices.len() ==> (#[trigger] self@.devices[i].prop_count)
                <= self@.devices[i].props.len() <= MAX_PROPS
        &&& forall|i: int|
            0 <= i < self@.phandles.len() ==> 0 <= (#[trigger] self@.phandles[i]).1
                < self@.devices.len()
    }
}

/// Parses the flattened device tree in `blob`, returning the device table
/// and phandle index, or the error the specification assigns to the blob.
/// A rejected blob means a fatal boot error for a bad magic number or an
/// unknown token, and an explicit capacity error where the blob's content
/// would overrun the table's fixed capacities.
pub fn parse_dtb(blob: &[u8]) -> (r: Result<DeviceTable, DtbError>)
    requires
        blob@.len() + 16 <= usize::MAX,
    ensures
        match r {
            Ok(t) => spec_parse_dtb(blob@) matches Ok(st) && t@.devices == st.devices
                && t@.phandles == st.phandles && t.wf(),
            Err(e) => spec_parse_dtb(blob@) matches Err(e2) && e == e2,
        },
{
    let blob_len = blob.len();
    if blob_len < 40 {
        return Err(DtbError::Truncated);
    }
    let header = FdtHeader::from_be_bytes(blob);
    if header.magic != MAGIC {
        return Err(DtbError::BadMagic);
    }
    let off_struct = header.off_dt_struct as usize;
    let off_strings = header.off_dt_strings as usize;
    if off_struct > blob_len || off_strings > blob_len {
        return Err(DtbError::Truncated);
    }
    let s = slice_subrange(blob, off_struct, blob_len);
    let strs = slice_subrange(blob, off_strings, blob_len);
    let s_len = s.len();
    let phandle_key = phandle_name();

    let mut devices: Vec<PlatformDevice> = Vec::new();
    let mut phandles: Vec<(u32, usize)> = Vec::new();
    let mut stack: Vec<usize> = Vec::new();
    let mut off: usize = 0;

    proof {
        assert(devices_view(devices@) =~= SpecParseState::init().devices);
        assert(phandles_view(phandles@) =~= SpecParseState::init().phandles);
        assert(stack_view(stack@) =~= SpecParseState::init().stack);
    }

    loop
        invariant
            off_struct <= blob@.len(),
            off_strings <= blob@.len(),
            s@ == blob@.subrange(off_struct as int, blob@.len() as int),
            strs@ == blob@.subrange(off_strings as int, blob@.len() as int),
            s_len == s@.len(),
            blob@.len() + 16 <= usize::MAX,
            s_len + 16 <= usize::MAX,
            phandle_key@ == phandle_bytes(),
            0 <= off <= s_len,
            devices@.len() <= MAX_DEVICES,
            phandles@.len() <= MAX_HANDLES,
            stack@.len() <= MAX_DEPTH,
            forall|j: int| 0 <= j < stack@.len() ==> (#[trigger] stack@[j]) < devices@.len(),
            devices_ok(devices_view(devices@)),
            parents_ok(devices_view(devices@)),
            phandles_ok(phandles_view(phandles@), devices@.len() as int),
            spec_parse_struct(
                s@,
                strs@,
                off as int,
                SpecParseState {
                    devices: devices_view(devices@),
                    phandles: phandles_view(phandles@),
                    stack: stack_view(stack@),
                },
            ) == spec_parse_struct(s@, strs@, 0, SpecParseState::init()),
            spec_parse_dtb(blob@) == spec_parse_struct(s@, strs@, 0, SpecParseState::init()),
        decreases s_len - off,
    {
        let ghost pre = SpecParseState {
            devices: devices_view(devices@),
            phandles: phandles_view(phandles@),
            stack: stack_view(stack@),
        };
        if off + 4 > s_len {
            return Err(DtbError::Truncated);
        }
        let token = read_be_u32(s, off);
        if token == FDT_BEGIN_NODE {
            let name_len = match find_nul(s, off + 4) {
                Some(n) => n,
                None => {
                    return Err(DtbError::Truncated);
                },
            };
            if devices.len() >= MAX_DEVICES {
                return Err(DtbError::CapacityExceeded);
            }
            if stack.len() >= MAX_DEPTH {
                return Err(DtbError::CapacityExceeded);
            }
            let parent: Option<usize> = if stack.len() > 0 {
                Some(stack[stack.len() - 1])
            } else {
                None
            };
            let name = slice_to_vec(slice_subrange(s, off + 4, off + 4 + name_len));
            let idx = devices.len();
            let dev = PlatformDevice { parent, name, properties: Vec::new(), prop_count: 0 };
            proof {
                assert(dev@.props =~= Seq::<SpecProp>::empty());
                assert(dev@.name =~= cstr_at(s@, off + 4));
            }
            devices.push(dev);
            stack.push(idx);
            let off2 = align4_up(off + 4 + name_len + 1);
            proof {
                let spec_dev = SpecDevice {
                    parent: if pre.stack.len() > 0 {
                        Some(pre.stack.last())
                    } else {
                        None
                    },
                    name: cstr_at(s@, off + 4),
                    props: Seq::empty(),
                    prop_count: 0,
                };
                assert(devices_view(devices@) =~= pre.devices.push(spec_dev));
                assert(stack_view(stack@) =~= pre.stack.push(pre.devices.len() as int));
                crate::bytes::lemma_align4_bounds((off + 4 + name_len + 1) as int);
            }
            if off2 > s_len {
                return Err(DtbError::Truncated);
            }
            off = off2;
        } else if token == FDT_END_NODE {
            if stack.len() == 0 {
                return Err(DtbError::Unbalanced);
            }
            let top = stack[stack.len() - 1];
            let sealed_count = devices[top].properties.len();
            devices[top].prop_count = sealed_count;
            stack.pop();
            proof {
                let spec_dev = pre.devices[top as int];
                let sealed = SpecDevice { prop_count: spec_dev.props.len() as int, ..spec_dev };
                assert(devices_view(devices@) =~= pre.devices.update(top as int, sealed));
                assert(stack_view(stack@) =~= pre.stack.drop_last());
            }
            off = off + 4;
        } else if token == FDT_PROP {
            if stack.len() == 0 {
                return Err(DtbError::Unbalanced);
            }
            if off + 12 > s_len {
                return Err(DtbError::Truncated);
            }
            let prop_header = FdtPropHeader::from_be_bytes(s, off + 4);
            let plen = prop_header.len as usize;
            let nameoff = prop_header.nameoff as usize;
            if plen > s_len - (off + 12) {
                return Err(DtbError::Truncated);
            }
            if nameoff > strs.len() {
                return Err(DtbError::Truncated);
            }
            let pname_len = match find_nul(strs, nameoff) {
                Some(n) => n,
                None => {
                    return Err(DtbError::Truncated);
                },
            };
            let top = stack[stack.len() - 1];
            if devices[top].properties.len() >= MAX_PROPS {
                return Err(DtbError::CapacityExceeded);
            }
            let pname = slice_to_vec(slice_subrange(strs, nameoff, nameoff + pname_len));
            let value = slice_to_vec(slice_subrange(s, off + 12, off + 12 + plen));
            let is_phandle = bytes_eq(pname.as_slice(), phandle_key.as_slice());
            proof {
                assert(pname@ =~= cstr_at(strs@, nameoff as int));
            }
            let prop = Property { name: pname, value };
            if is_phandle {
                if 4 > s_len - (off + 12) {
                    return Err(DtbError::Truncated);
                }
                if phandles.len() >= MAX_HANDLES {
                    return Err(DtbError::CapacityExceeded);
                }
                let phv = read_be_u32(s, off + 12);
                devices[top].properties.push(prop);
                phandles.push((phv, top));
                proof {
                    let spec_dev = pre.devices[top as int];
                    let dev2 = SpecDevice {
                        props: spec_dev.props.push(
                            SpecProp {
                                name: cstr_at(strs@, nameoff as int),
                                value: s@.subrange(off + 12, off + 12 + plen),
                            },
                        ),
                        ..spec_dev
                    };
                    assert(devices@[top as int]@.props =~= dev2.props);
                    assert(devices_view(devices@) =~= pre.devices.update(top as int, dev2));
                    assert(phandles_view(phandles@) =~= pre.phandles.push(
                        (be_u32_at(s@, off + 12), top as int),
                    ));
                }
            } else {
                devices[top].properties.push(prop);
                proof {
                    let spec_dev = pre.devices[top as int];
                    let dev2 = SpecDevice {
                        props: spec_dev.props.push(
                            SpecProp {
                                name: cstr_at(strs@, nameoff as int),
                                value: s@.subrange(off + 12, off + 12 + plen),
                            },
                        ),
                        ..spec_dev
                    };
                    assert(devices@[top as int]@.props =~= dev2.props);
                    assert(devices_view(devices@) =~= pre.devices.update(top as int, dev2));
                }
            }
            let off2 = align4_up(off + 12 + plen);
            proof {
                crate::bytes::lemma_align4_bounds((off + 12 + plen) as int);
            }
            if off2 > s_len {
                return Err(DtbError::Truncated);
            }
            off = off2;
        } else if token == FDT_NOP {
            off = off + 4;
        } else if token == FDT_END {
            let table = DeviceTable { devices, phandles };
            return Ok(table);
        } else {
            return Err(DtbError::UnknownToken);
        }
    }
}

/// Index of the device mapped by the first phandle entry whose value is
/// `phandle`, scanning from position `i` upward.
pub open spec fn phandle_device(phs: Seq<(u32, int)>, phandle: u32, i: int) -> Option<int>
    decreases phs.len() - i when 0 <= i
{
    if i >= phs.len() {
        None
    } else if phs[i].0 == phandle {
        Some(phs[i].1)
    } else {
        phandle_device(phs, phandle, i + 1)
    }
}

/// Finds the device registered under phandle value `phandle`: the first
/// matching entry of the phandle index wins.
pub fn find_device_by_phandle(table: &DeviceTable, phandle: u32) -> (r: Option<&PlatformDevice>)
    requires
        table.wf(),
    ensures
        match r {
            Some(d) => phandle_device(table@.phandles, phandle, 0) matches Some(idx) && d@
                == table@.devices[idx],
            None => phandle_device(table@.phandles, phandle, 0) is None,
        },
{
    let n = table.phandles.len();
    let mut i: usize = 0;
    while i < n
        invariant
            0 <= i <= n,
            table.wf(),
            n == table.phandles@.len(),
            phandle_device(table@.phandles, phandle, 0) == phandle_device(
                table@.phandles,
                phandle,
                i as int,
            ),
        decreases n - i,
    {
        let (phandle_val, dev_idx) = table.phandles[i];
        if phandle_val == phandle {
            return Some(&table.devices[dev_idx]);
        }
        i = i + 1;
    }
    None
}

/// The interrupt controller reached by walking parent links up from `cur`
/// until a node carries an `"interrupt-parent"` property, whose phandle is
/// then resolved through the index. A carrier whose property value is
/// shorter than a phandle resolves to nothing.
pub open spec fn spec_interrupt_parent(
    devs: Seq<SpecDevice>,
    phs: Seq<(u32, int)>,
    cur: Option<int>,
) -> Option<int>
    decreases (match cur {
        Some(i) => i + 1,
        None => 0,
    }) when parents_ok(devs) && (cur matches Some(i) ==> 0 <= i < devs.len())
{
    match cur {
        None => None,
        Some(i) => {
            let d = devs[i];
            match crate::device::prop_index(d.props, d.prop_count, crate::device::interrupt_parent_bytes(), 0) {
                Some(k) => {
                    let p = d.props[k];
                    if p.value.len() >= 4 {
                        phandle_device(phs, be_u32_at(p.value, 0), 0)
                    } else {
                        None
                    }
                },
                None => spec_interrupt_parent(devs, phs, d.parent),
            }
        },
    }
}

/// Walks the parent chain of `dev` upward until a node carries an
/// `"interrupt-parent"` property and resolves that phandle through the
/// index; the first interrupt controller found, or nothing.
pub fn find_interrupt_parent<'a>(table: &'a DeviceTable, dev: &PlatformDevice) -> (r: Option<
    &'a PlatformDevice,
>)
    requires
        table.wf(),
        dev@.parent matches Some(p) ==> 0 <= p < table@.devices.len(),
    ensures
        match r {
            Some(d) => spec_interrupt_parent(table@.devices, table@.phandles, dev@.parent)
                matches Some(idx) && d@ == table@.devices[idx],
            None => spec_interrupt_parent(table@.devices, table@.phandles, dev@.parent) is None,
        },
{
    let key = crate::device::interrupt_parent_name();
    let mut cur: Option<usize> = dev.parent;
    loop
        invariant
            table.wf(),
            key@ == crate::device::interrupt_parent_bytes(),
            cur matches Some(i) ==> 0 <= (i as int) < table@.devices.len(),
            spec_interrupt_parent(
                table@.devices,
                table@.phandles,
                match cur {
                    Some(i) => Some(i as int),
                    None => None,
                },
            ) == spec_interrupt_parent(table@.devices, table@.phandles, dev@.parent),
        decreases (match cur {
            Some(i) => i + 1,
            None => 0,
        }),
    {
        match cur {
            None => {
                return None;
            },
            Some(i) => {
                let d = &table.devices[i];
                proof {
                    assert(d@ == table@.devices[i as int]);
                }
                match d.find_property(key.as_slice()) {
                    Some(p) => {
                        if p.value.len() >= 4 {
                            let phandle = read_be_u32(p.value.as_slice(), 0);
                            return find_device_by_phandle(table, phandle);
                        } else {
                            return None;
                        }
                    },
                    None => {
                        cur = d.parent;
                    },
                }
            },
        }
    }
}

/// A successful phandle lookup always lands inside the first `n` devices
/// when every index entry does.
pub proof fn lemma_phandle_device_in_range(phs: Seq<(u32, int)>, phandle: u32, i: int, n: int)
    requires
        0 <= i,
        phandles_ok(phs, n),
        phandle_device(phs, phandle, i) is Some,
    ensures
        0 <= phandle_device(phs, phandle, i).unwrap() < n,
    decreases phs.len() - i,
{
    if i < phs.len() && phs[i].0 != phandle {
        lemma_phandle_device_in_range(phs, phandle, i + 1, n);
    }
}

/// A successful interrupt-parent walk always lands inside the device table.
pub proof fn lemma_interrupt_parent_in_range(
    devs: Seq<SpecDevice>,
    phs: Seq<(u32, int)>,
    cur: Option<int>,
)
    requires
        parents_ok(devs),
        phandles_ok(phs, devs.len() as int),
        cur matches Some(i) ==> 0 <= i < devs.len(),
        spec_interrupt_parent(devs, phs, cur) is Some,
    ensures
        0 <= spec_interrupt_parent(devs, phs, cur).unwrap() < devs.len(),
    decreases (match cur {
        Some(i) => i + 1,
        None => 0,
    }),
{
    match cur {
        None => {
        },
        Some(i) => {
            let d = devs[i];
            match crate::device::prop_index(
                d.props,
                d.prop_count,
                crate::device::interrupt_parent_bytes(),
                0,
            ) {
                Some(k) => {
                    let p = d.props[k];
                    if p.value.len() >= 4 {
                        lemma_phandle_device_in_range(phs, be_u32_at(p.value, 0), 0, devs.len() as int);
                    }
                },
                None => {
                    lemma_interrupt_parent_in_range(devs, phs, d.parent);
                },
            }
        },
    }
}

/// Law: when no two phandle entries share a value, a device registered
/// under phandle `p` is found by looking up exactly `p`: the lookup returns
/// that entry's device index and no other.
pub proof fn lemma_phandle_lookup_exact(phs: Seq<(u32, int)>, j: int)
    requires
        0 <= j < phs.len(),
        forall|a: int, b: int| 0 <= a < b < phs.len() ==> (#[trigger] phs[a]).0 != (#[trigger] phs[b]).0,
    ensures
        phandle_device(phs, phs[j].0, 0) == Some(phs[j].1),
{
    lemma_phandle_lookup_from(phs, j, 0);
}

/// The unique-phandle lookup law, generalized over the scan's start.
proof fn lemma_phandle_lookup_from(phs: Seq<(u32, int)>, j: int, i: int)
    requires
        0 <= i <= j < phs.len(),
        forall|a: int, b: int| 0 <= a < b < phs.len() ==> (#[trigger] phs[a]).0 != (#[trigger] phs[b]).0,
    ensures
        phandle_device(phs, phs[j].0, i) == Some(phs[j].1),
    decreases j - i,
{
    if i < j {
        assert(phs[i].0 != phs[j].0);
        lemma_phandle_lookup_from(phs, j, i + 1);
    }
}

/// Law: looking up a phandle value that no entry carries finds nothing.
pub proof fn lemma_phandle_lookup_absent(phs: Seq<(u32, int)>, phandle: u32)
    requires
        forall|a: int| 0 <= a < phs.len() ==> (#[trigger] phs[a]).0 != phandle,
    ensures
        phandle_device(phs, phandle, 0) is None,
{
    lemma_phandle_lookup_absent_from(phs, phandle, 0);
}

/// The absent-phandle law, generalized over the scan's start.
proof fn lemma_phandle_lookup_absent_from(phs: Seq<(u32, int)>, phandle: u32, i: int)
    requires
        0 <= i,
        forall|a: int| 0 <= a < phs.len() ==> (#[trigger] phs[a]).0 != phandle,
    ensures
        phandle_device(phs, phandle, i) is None,
    decreases phs.len() - i,
{
    if i < phs.len() {
        lemma_phandle_lookup_absent_from(phs, phandle, i + 1);
    }
}

/// Fetches the zero-terminated string at `offset` in the strings block, or
/// nothing when the offset lies outside the block or no terminator follows.
pub fn get_property_name(strings: &[u8], offset: u32) -> (r: Option<Vec<u8>>)
    ensures
        match r {
            Some(v) => offset <= strings@.len() && has_nul(strings@, offset as int) && v@
                == cstr_at(strings@, offset as int),
            None => offset > strings@.len() || !has_nul(strings@, offset as int),
        },
{
    let n = strings.len();
    if offset as usize > n {
        return None;
    }
    match find_nul(strings, offset as usize) {
        Some(l) => Some(slice_to_vec(slice_subrange(strings, offset as usize, offset as usize + l))),
        None => None,
    }
}

impl PlatformDevice {
    /// Reads `#address-cells` and `#size-cells` from this device's parent,
    /// defaulting to two address cells and one size cell when there is no
    /// parent or the parent does not carry them.
    pub fn get_parent_cells(&self, table: &DeviceTable) -> (r: (u32, u32))
        requires
            table.wf(),
            self@.parent matches Some(p) ==> 0 <= p < table@.devices.len(),
        ensures
            match self@.parent {
                None => r == (2u32, 1u32),
                Some(p) => r.0 == crate::device::cells_value(
                    table@.devices[p].props,
                    table@.devices[p].prop_count,
                    crate::device::address_cells_bytes(),
                    2,
                ) && r.1 == crate::device::cells_value(
                    table@.devices[p].props,
                    table@.devices[p].prop_count,
                    crate::device::size_cells_bytes(),
                    1,
                ),
            },
    {
        match self.parent {
            None => (2, 1),
            Some(p) => {
                let parent = &table.devices[p];
                crate::device::get_parent_cells_of(parent)
            },
        }
    }
}

/// The device kind of the first match-table entry whose compatible string
/// occurs in `compat`, scanning from entry `j` onward.
pub open spec fn spec_match_kind(
    mt: Seq<crate::device::SpecMatch>,
    compat: Seq<u8>,
    j: int,
) -> Option<crate::device::DeviceKind>
    decreases mt.len() - j when 0 <= j
{
    if j >= mt.len() {
        None
    } else if crate::device::compat_matches(compat, mt[j].compatible) {
        Some(mt[j].setup)
    } else {
        spec_match_kind(mt, compat, j + 1)
    }
}

/// The value of a device's first sealed `compatible` property, if any.
pub open spec fn spec_device_compat(d: SpecDevice) -> Option<Seq<u8>> {
    match crate::device::prop_index(d.props, d.prop_count, crate::device::compatible_bytes(), 0) {
        Some(k) => Some(d.props[k].value),
        None => None,
    }
}

/// The dispatch entries contributed by devices `i` onward during one pass.
/// With `gic_pass` true only nodes compatible with the interrupt controller
/// contribute; with it false, all other matched nodes do. A contributing
/// node invokes the first match-table entry that its `compatible` value
/// contains.
pub open spec fn spec_pass_entries(
    devs: Seq<SpecDevice>,
    gic_pass: bool,
    i: int,
) -> Seq<(int, crate::device::DeviceKind)>
    decreases devs.len() - i when 0 <= i
{
    if i >= devs.len() {
        Seq::empty()
    } else {
        let rest = spec_pass_entries(devs, gic_pass, i + 1);
        match spec_device_compat(devs[i]) {
            Some(c) => if crate::device::compat_matches(c, crate::device::compat_gic_bytes())
                == gic_pass {
                match spec_match_kind(crate::device::spec_configured_devices(), c, 0) {
                    Some(k) => seq![(i, k)] + rest,
                    None => rest,
                }
            } else {
                rest
            },
            None => rest,
        }
    }
}

/// The full dispatch order: the interrupt-controller pass first, then every
/// other matched device in table order.
pub open spec fn spec_dispatch_plan(devs: Seq<SpecDevice>) -> Seq<(int, crate::device::DeviceKind)> {
    spec_pass_entries(devs, true, 0) + spec_pass_entries(devs, false, 0)
}

/// The mathematical image of a dispatch plan.
pub open spec fn plan_view(v: Seq<(usize, crate::device::DeviceKind)>) -> Seq<(
    int,
    crate::device::DeviceKind,
)> {
    Seq::new(v.len(), |i: int| (v[i].0 as int, v[i].1))
}

/// Decides the device-initialization order in two fixed passes: first the
/// interrupt controller, which every other device needs for its interrupt
/// routing, then all remaining matched devices in table order. Nodes with no
/// matching `compatible` entry are silently ignored. Each returned pair
/// holds a device-table index and the hardware class whose setup routine
/// claims it.
pub fn init_devices(table: &DeviceTable) -> (r: Vec<(usize, crate::device::DeviceKind)>)
    requires
        table.wf(),
    ensures
        plan_view(r@) == spec_dispatch_plan(table@.devices),
{
    let mut plan: Vec<(usize, crate::device::DeviceKind)> = Vec::new();
    proof {
        assert(plan_view(plan@) =~= Seq::<(int, crate::device::DeviceKind)>::empty());
    }
    run_pass(table, true, &mut plan);
    run_pass(table, false, &mut plan);
    proof {
        assert(plan_view(plan@) =~= spec_dispatch_plan(table@.devices));
    }
    plan
}

/// Appends one pass's dispatch entries to `plan` in device-table order.
fn run_pass(table: &DeviceTable, gic_pass: bool, plan: &mut Vec<(usize, crate::device::DeviceKind)>)
    requires
        table.wf(),
    ensures
        plan_view(final(plan)@) == plan_view(old(plan)@) + spec_pass_entries(
            table@.devices,
            gic_pass,
            0,
        ),
{
    let gic_key = crate::device::compat_gic_name();
    let compat_key = crate::device::compatible_name();
    let match_table = crate::device::configured_devices();
    let n = table.devices.len();
    let mut i: usize = 0;
    while i < n
        invariant
            0 <= i <= n,
            table.wf(),
            n == table.devices@.len(),
            gic_key@ == crate::device::compat_gic_bytes(),
            compat_key@ == crate::device::compatible_bytes(),
            crate::device::matches_view(match_table@) == crate::device::spec_configured_devices(),
            plan_view(plan@) + spec_pass_entries(table@.devices, gic_pass, i as int) == plan_view(
                old(plan)@,
            ) + spec_pass_entries(table@.devices, gic_pass, 0),
        decreases n - i,
    {
        let dev = &table.devices[i];
        let ghost pre_plan = plan_view(plan@);
        match dev.find_property(compat_key.as_slice()) {
            Some(compat_prop) => {
                let is_gic = crate::device::compatible_matches(compat_prop, gic_key.as_slice());
                if is_gic == gic_pass {
                    match match_kind(&match_table, compat_prop) {
                        Some(kind) => {
                            plan.push((i, kind));
                            proof {
                                assert(plan_view(plan@) =~= pre_plan.push((i as int, kind)));
                                assert(pre_plan.push((i as int, kind)) + spec_pass_entries(
                                    table@.devices,
                                    gic_pass,
                                    i + 1,
                                ) =~= pre_plan + (seq![(i as int, kind)] + spec_pass_entries(
                                    table@.devices,
                                    gic_pass,
                                    i + 1,
                                )));
                            }
                        },
                        None => {
                        },
                    }
                }
            },
            None => {
            },
        }
        i = i + 1;
    }
}

/// The hardware class of the first match-table entry whose compatible
/// string occurs in the device's `compatible` value, if any.
fn match_kind(
    match_table: &Vec<crate::device::DeviceMatch>,
    compat_prop: &Property,
) -> (r: Option<crate::device::DeviceKind>)
    requires
        crate::device::matches_view(match_table@) == crate::device::spec_configured_devices(),
    ensures
        r == spec_match_kind(crate::device::spec_configured_devices(), compat_prop@.value, 0),
{
    let m = match_table.len();
    let mut j: usize = 0;
    while j < m
        invariant
            0 <= j <= m,
            m == match_table@.len(),
            crate::device::matches_view(match_table@) == crate::device::spec_configured_devices(),
            spec_match_kind(crate::device::spec_configured_devices(), compat_prop@.value, 0)
                == spec_match_kind(
                crate::device::spec_configured_devices(),
                compat_prop@.value,
                j as int,
            ),
        decreases m - j,
    {
        let entry = &match_table[j];
        proof {
            assert(entry@ == crate::device::matches_view(match_table@)[j as int]);
        }
        if crate::device::compatible_matches(compat_prop, entry.compatible.as_slice()) {
            return Some(entry.setup);
        }
        j = j + 1;
    }
    None
}

/// One event of a synthetic structure block: a node opening with its name,
/// a property with its name's strings-block offset and its value bytes, a
/// node closing, or a padding token.
pub ghost enum DtbEvent {
    Begin { name: Seq<u8> },
    Prop { nameoff: u32, value: Seq<u8> },
    EndNode,
    Nop,
}

/// The four big-endian bytes of a 32-bit word.
pub open spec fn be32_bytes(x: u32) -> Seq<u8> {
    seq![
        ((x >> 24) & 0xff) as u8,
        ((x >> 16) & 0xff) as u8,
        ((x >> 8) & 0xff) as u8,
        (x & 0xff) as u8,
    ]
}

/// Reading four big-endian bytes back gives the word they came from.
proof fn lemma_be32_roundtrip(s: Seq<u8>, off: int, x: u32)
    requires
        0 <= off,
        off + 4 <= s.len(),
        s[off] == ((x >> 24) & 0xff) as u8,
        s[off + 1] == ((x >> 16) & 0xff) as u8,
        s[off + 2] == ((x >> 8) & 0xff) as u8,
        s[off + 3] == (x & 0xff) as u8,
    ensures
        be_u32_at(s, off) == x,
{
    assert(((((((x >> 24) & 0xff) as u8) as u32) << 24) | (((((x >> 16) & 0xff) as u8) as u32)
        << 16) | (((((x >> 8) & 0xff) as u8) as u32) << 8) | (((x & 0xff) as u8) as u32)) == x)
        by (bit_vector);
}

/// `n` zero bytes.
pub open spec fn zero_pad(n: int) -> Seq<u8> {
    Seq::new(n as nat, |i: int| 0u8)
}

/// The bytes one event contributes to the structure block: its token, its
/// payload, and zero padding to the next four-byte boundary.
pub open spec fn encode_event(e: DtbEvent) -> Seq<u8> {
    match e {
        DtbEvent::Begin { name } => {
            let base = be32_bytes(FDT_BEGIN_NODE) + name + seq![0u8];
            base + zero_pad(align4(base.len() as int) - base.len())
        },
        DtbEvent::Prop { nameoff, value } => {
            let base = be32_bytes(FDT_PROP) + be32_bytes(value.len() as u32) + be32_bytes(nameoff)
                + value;
            base + zero_pad(align4(base.len() as int) - base.len())
        },
        DtbEvent::EndNode => be32_bytes(FDT_END_NODE),
        DtbEvent::Nop => be32_bytes(FDT_NOP),
    }
}

/// The structure block encoding events `i` onward: each event's bytes in
/// order, closed by the end token.
pub open spec fn encode_from(evts: Seq<DtbEvent>, i: int) -> Seq<u8>
    decreases evts.len() - i when 0 <= i
{
    if i >= evts.len() {
        be32_bytes(FDT_END)
    } else {
        encode_event(evts[i]) + encode_from(evts, i + 1)
    }
}

/// The structure block encoding a whole event sequence.
pub open spec fn encode_events(evts: Seq<DtbEvent>) -> Seq<u8> {
    encode_from(evts, 0)
}

/// Whether one event can fire from state `st`: node names carry no zero
/// byte, capacities are not yet full, and a property — whose value fits a
/// 32-bit length and whose name resolves in the strings table — only
/// appears inside an open node; a `"phandle"` property carries at least a
/// 32-bit value and finds room in the index.
pub open spec fn event_ok(st: SpecParseState, e: DtbEvent, strtab: Seq<u8>) -> bool {
    match e {
        DtbEvent::Begin { name } => {
            &&& forall|k: int| 0 <= k < name.len() ==> name[k] != 0
            &&& st.devices.len() < MAX_DEVICES
            &&& st.stack.len() < MAX_DEPTH
        },
        DtbEvent::Prop { nameoff, value } => {
            &&& st.stack.len() > 0
            &&& 0 <= st.stack.last() < st.devices.len()
            &&& nameoff <= strtab.len()
            &&& has_nul(strtab, nameoff as int)
            &&& value.len() < 0x100000000
            &&& st.devices[st.stack.last()].props.len() < MAX_PROPS
            &&& (cstr_at(strtab, nameoff as int) == phandle_bytes() ==> value.len() >= 4
                && st.phandles.len() < MAX_HANDLES)
        },
        DtbEvent::EndNode => st.stack.len() > 0 && 0 <= st.stack.last() < st.devices.len(),
        DtbEvent::Nop => true,
    }
}

/// The state after one event: a node begin pushes a fresh device whose
/// parent is the node open beneath it; a property joins the top device, a
/// `"phandle"` property also joins the index; a node end seals the top
/// device's property count and pops it.
pub open spec fn step_event(st: SpecParseState, e: DtbEvent, strtab: Seq<u8>) -> SpecParseState {
    match e {
        DtbEvent::Begin { name } => {
            let parent = if st.stack.len() > 0 {
                Some(st.stack.last())
            } else {
                None
            };
            let dev = SpecDevice { parent, name, props: Seq::empty(), prop_count: 0 };
            SpecParseState {
                devices: st.devices.push(dev),
                phandles: st.phandles,
                stack: st.stack.push(st.devices.len() as int),
            }
        },
        DtbEvent::Prop { nameoff, value } => {
            let top = st.stack.last();
            let dev = st.devices[top];
            let pname = cstr_at(strtab, nameoff as int);
            let dev2 = SpecDevice { props: dev.props.push(SpecProp { name: pname, value }), ..dev };
            SpecParseState {
                devices: st.devices.update(top, dev2),
                phandles: if pname == phandle_bytes() {
                    st.phandles.push((be_u32_at(value, 0), top))
                } else {
                    st.phandles
                },
                stack: st.stack,
            }
        },
        DtbEvent::EndNode => {
            let top = st.stack.last();
            let dev = st.devices[top];
            SpecParseState {
                devices: st.devices.update(
                    top,
                    SpecDevice { prop_count: dev.props.len() as int, ..dev },
                ),
                phandles: st.phandles,
                stack: st.stack.drop_last(),
            }
        },
        DtbEvent::Nop => st,
    }
}

/// Whether every event from `i` onward can fire in turn from state `st`.
pub open spec fn events_ok(evts: Seq<DtbEvent>, i: int, st: SpecParseState, strtab: Seq<u8>) -> bool
    decreases evts.len() - i when 0 <= i
{
    i >= evts.len() || (event_ok(st, evts[i], strtab) && events_ok(
        evts,
        i + 1,
        step_event(st, evts[i], strtab),
        strtab,
    ))
}

/// The state after firing every event from `i` onward, starting at `st`.
pub open spec fn fold_events(
    evts: Seq<DtbEvent>,
    i: int,
    st: SpecParseState,
    strtab: Seq<u8>,
) -> SpecParseState
    decreases evts.len() - i when 0 <= i
{
    if i >= evts.len() {
        st
    } else {
        fold_events(evts, i + 1, step_event(st, evts[i], strtab), strtab)
    }
}

/// How many node-begin events — devices — the events from `i` onward hold.
pub open spec fn begin_count(evts: Seq<DtbEvent>, i: int) -> int
    decreases evts.len() - i when 0 <= i
{
    if i >= evts.len() {
        0
    } else {
        (if evts[i] is Begin {
            1int
        } else {
            0int
        }) + begin_count(evts, i + 1)
    }
}

/// Every event suffix encodes to at least the end token.
proof fn lemma_encode_from_len(evts: Seq<DtbEvent>, i: int)
    requires
        0 <= i,
    ensures
        encode_from(evts, i).len() >= 4,
    decreases evts.len() - i,
{
    if i < evts.len() {
        lemma_encode_from_len(evts, i + 1);
    }
}

/// Rounding up from a four-byte boundary distributes over the sum.
proof fn lemma_align4_add(off: int, l: int)
    requires
        0 <= off,
        0 <= l,
        off % 4 == 0,
    ensures
        align4(off + l) == off + align4(l),
{
    let q = off / 4;
    assert(off == 4 * q) by (nonlinear_arith)
        requires
            off % 4 == 0,
            q == off / 4,
            0 <= off,
    ;
    assert(((4 * q + l + 3) / 4) * 4 == 4 * q + ((l + 3) / 4) * 4) by (nonlinear_arith)
        requires
            0 <= q,
            0 <= l,
    ;
}

/// Each event's encoding is a whole number of four-byte words.
proof fn lemma_encode_event_aligned(e: DtbEvent)
    ensures
        encode_event(e).len() % 4 == 0,
        encode_event(e).len() >= 4,
{
    match e {
        DtbEvent::Begin { name } => {
            let base = be32_bytes(FDT_BEGIN_NODE) + name + seq![0u8];
            crate::bytes::lemma_align4_bounds(base.len() as int);
            assert(encode_event(e).len() == align4(base.len() as int));
        },
        DtbEvent::Prop { nameoff, value } => {
            let base = be32_bytes(FDT_PROP) + be32_bytes(value.len() as u32) + be32_bytes(nameoff)
                + value;
            crate::bytes::lemma_align4_bounds(base.len() as int);
            assert(encode_event(e).len() == align4(base.len() as int));
        },
        DtbEvent::EndNode => {
        },
        DtbEvent::Nop => {
        },
    }
}

/// Each byte of a window of `s` is the byte of `s` at its offset.
proof fn lemma_window_bytes(s: Seq<u8>, off: int, tail: Seq<u8>)
    requires
        0 <= off,
        off + tail.len() <= s.len(),
        s.subrange(off, off + tail.len()) == tail,
    ensures
        forall|k: int| 0 <= k < tail.len() ==> s[off + k] == #[trigger] tail[k],
{
    assert forall|k: int| 0 <= k < tail.len() implies s[off + k] == #[trigger] tail[k] by {
        assert(s.subrange(off, off + tail.len())[k] == tail[k]);
    }
}

/// One parser step over an encoded node opening.
proof fn lemma_parse_step_begin(
    s: Seq<u8>,
    strtab: Seq<u8>,
    off: int,
    st: SpecParseState,
    name: Seq<u8>,
    off2: int,
)
    requires
        0 <= off,
        off + 4 <= s.len(),
        be_u32_at(s, off) == FDT_BEGIN_NODE,
        forall|k: int| 0 <= k < name.len() ==> name[k] != 0,
        st.devices.len() < MAX_DEVICES,
        st.stack.len() < MAX_DEPTH,
        forall|k: int| 0 <= k < name.len() ==> s[off + 4 + k] == #[trigger] name[k],
        off + 4 + name.len() < s.len(),
        s[off + 4 + name.len()] == 0,
        off2 == align4(off + 4 + name.len() + 1),
        off2 <= s.len(),
    ensures
        spec_parse_struct(s, strtab, off, st) == spec_parse_struct(
            s,
            strtab,
            off2,
            step_event(st, DtbEvent::Begin { name }, strtab),
        ),
{
    let nl = name.len() as int;
    assert(has_nul(s, off + 4));
    assert forall|k: int| off + 4 <= k < off + 4 + nl implies s[k] != 0 by {
        assert(s[k] == name[k - (off + 4)]);
    }
    crate::bytes::lemma_cstr_len_exact(s, off + 4, nl);
    assert(cstr_at(s, off + 4) =~= name);
}

/// One parser step over an encoded property.
proof fn lemma_parse_step_prop(
    s: Seq<u8>,
    strtab: Seq<u8>,
    off: int,
    st: SpecParseState,
    nameoff: u32,
    value: Seq<u8>,
    off2: int,
)
    requires
        0 <= off,
        off + 12 <= s.len(),
        be_u32_at(s, off) == FDT_PROP,
        value.len() < 0x100000000,
        be_u32_at(s, off + 4) == value.len() as u32,
        be_u32_at(s, off + 8) == nameoff,
        off + 12 + value.len() <= s.len(),
        s.subrange(off + 12, off + 12 + value.len()) == value,
        st.stack.len() > 0,
        0 <= st.stack.last() < st.devices.len(),
        nameoff <= strtab.len(),
        has_nul(strtab, nameoff as int),
        st.devices[st.stack.last()].props.len() < MAX_PROPS,
        cstr_at(strtab, nameoff as int) == phandle_bytes() ==> value.len() >= 4
            && st.phandles.len() < MAX_HANDLES,
        off2 == align4(off + 12 + value.len()),
        off2 <= s.len(),
    ensures
        spec_parse_struct(s, strtab, off, st) == spec_parse_struct(
            s,
            strtab,
            off2,
            step_event(st, DtbEvent::Prop { nameoff, value }, strtab),
        ),
{
    let plen = value.len() as int;
    assert forall|k: int| 0 <= k < plen implies s[off + 12 + k] == #[trigger] value[k] by {
        assert(s.subrange(off + 12, off + 12 + plen)[k] == value[k]);
    }
    if cstr_at(strtab, nameoff as int) == phandle_bytes() {
        assert(be_u32_at(s, off + 12) == be_u32_at(value, 0));
    }
}

/// One parser step consumes exactly one encoded event.
#[verifier::rlimit(100)]
#[verifier::spinoff_prover]
proof fn lemma_parse_encode_step(
    s: Seq<u8>,
    strtab: Seq<u8>,
    e: DtbEvent,
    off: int,
    st: SpecParseState,
    off2: int,
)
    requires
        0 <= off,
        off % 4 == 0,
        off + encode_event(e).len() <= s.len(),
        event_ok(st, e, strtab),
        forall|k: int| 0 <= k < encode_event(e).len() ==> s[off + k] == #[trigger] encode_event(
            e,
        )[k],
        off2 == off + encode_event(e).len(),
    ensures
        spec_parse_struct(s, strtab, off, st) == spec_parse_struct(
            s,
            strtab,
            off2,
            step_event(st, e, strtab),
        ),
{
    let enc = encode_event(e);
    lemma_encode_event_aligned(e);
    match e {
        DtbEvent::Begin { name } => {
            let base = be32_bytes(FDT_BEGIN_NODE) + name + seq![0u8];
            let nl = name.len() as int;
            assert forall|k: int| 0 <= k < 4 implies s[off + k] == be32_bytes(
                FDT_BEGIN_NODE,
            )[k] by {
                assert(enc[k] == base[k]);
            }
            lemma_be32_roundtrip(s, off, FDT_BEGIN_NODE);
            assert forall|k: int| 0 <= k < nl implies s[off + 4 + k] == #[trigger] name[k] by {
                assert(enc[4 + k] == base[4 + k]);
            }
            assert(enc[4 + nl] == base[4 + nl]);
            assert(s[off + 4 + nl] == 0);
            assert(off + 4 + nl < s.len());
            lemma_align4_add(off, base.len() as int);
            assert(enc.len() == align4(base.len() as int));
            assert(off2 == align4(off + 4 + nl + 1));
            lemma_parse_step_begin(s, strtab, off, st, name, off2);
        },
        DtbEvent::Prop { nameoff, value } => {
            let plen = value.len() as int;
            let lenw = value.len() as u32;
            let base = be32_bytes(FDT_PROP) + be32_bytes(lenw) + be32_bytes(nameoff) + value;
            assert forall|k: int| 0 <= k < 4 implies s[off + k] == be32_bytes(FDT_PROP)[k] by {
                assert(enc[k] == base[k]);
                assert(base[k] == be32_bytes(FDT_PROP)[k]);
            }
            assert forall|k: int| 0 <= k < 4 implies s[off + 4 + k] == be32_bytes(lenw)[k] by {
                assert(enc[4 + k] == base[4 + k]);
                assert(base[4 + k] == be32_bytes(lenw)[k]);
            }
            assert forall|k: int| 0 <= k < 4 implies s[off + 8 + k] == be32_bytes(nameoff)[k] by {
                assert(enc[8 + k] == base[8 + k]);
                assert(base[8 + k] == be32_bytes(nameoff)[k]);
            }
            lemma_be32_roundtrip(s, off, FDT_PROP);
            lemma_be32_roundtrip(s, off + 4, lenw);
            lemma_be32_roundtrip(s, off + 8, nameoff);
            assert forall|k: int| 0 <= k < plen implies s[off + 12 + k] == #[trigger] value[k] by {
                assert(enc[12 + k] == base[12 + k]);
                assert(base[12 + k] == value[k]);
            }
            assert(off + 12 + plen <= s.len());
            assert(s.subrange(off + 12, off + 12 + plen) =~= value);
            lemma_align4_add(off, base.len() as int);
            assert(enc.len() == align4(base.len() as int));
            assert(off2 == align4(off + 12 + plen));
            lemma_parse_step_prop(s, strtab, off, st, nameoff, value, off2);
        },
        DtbEvent::EndNode => {
            assert forall|k: int| 0 <= k < 4 implies s[off + k] == be32_bytes(FDT_END_NODE)[k] by {
                assert(enc[k] == be32_bytes(FDT_END_NODE)[k]);
            }
            lemma_be32_roundtrip(s, off, FDT_END_NODE);
        },
        DtbEvent::Nop => {
            assert forall|k: int| 0 <= k < 4 implies s[off + k] == be32_bytes(FDT_NOP)[k] by {
                assert(enc[k] == be32_bytes(FDT_NOP)[k]);
            }
            lemma_be32_roundtrip(s, off, FDT_NOP);
        },
    }
}

/// The parser, run over the encoding of events `i` onward from a state the
/// events can fire from, returns exactly the folded state.
#[verifier::rlimit(100)]
#[verifier::spinoff_prover]
proof fn lemma_parse_encode_from(
    s: Seq<u8>,
    strtab: Seq<u8>,
    evts: Seq<DtbEvent>,
    i: int,
    off: int,
    st: SpecParseState,
)
    requires
        0 <= i <= evts.len(),
        0 <= off,
        off + encode_from(evts, i).len() <= s.len(),
        off % 4 == 0,
        s.subrange(off, off + encode_from(evts, i).len()) == encode_from(evts, i),
        events_ok(evts, i, st, strtab),
    ensures
        spec_parse_struct(s, strtab, off, st) == Ok::<SpecParseState, DtbError>(
            fold_events(evts, i, st, strtab),
        ),
    decreases evts.len() - i,
{
    if i >= evts.len() {
        let tail = be32_bytes(FDT_END);
        lemma_window_bytes(s, off, tail);
        lemma_be32_roundtrip(s, off, FDT_END);
    } else {
        let e = evts[i];
        let enc = encode_event(e);
        let rest = encode_from(evts, i + 1);
        lemma_encode_event_aligned(e);
        lemma_encode_from_len(evts, i + 1);
        assert(encode_from(evts, i) == enc + rest);
        lemma_window_bytes(s, off, enc + rest);
        let off2 = off + enc.len();
        assert(off2 + rest.len() <= s.len());
        assert forall|k: int| 0 <= k < enc.len() implies s[off + k] == #[trigger] enc[k] by {
            assert((enc + rest)[k] == enc[k]);
        }
        assert(s.subrange(off2, off2 + rest.len()) =~= rest) by {
            assert forall|k: int| 0 <= k < rest.len() implies s.subrange(
                off2,
                off2 + rest.len(),
            )[k] == rest[k] by {
                assert(s[off + (enc.len() + k)] == (enc + rest)[enc.len() + k]);
            }
        }
        let st2 = step_event(st, e, strtab);
        assert(events_ok(evts, i + 1, st2, strtab));
        lemma_parse_encode_step(s, strtab, e, off, st, off2);
        lemma_parse_encode_from(s, strtab, evts, i + 1, off2, st2);
    }
}

/// Law: parsing a structure block assembled from well-formed node and
/// property events reconstructs the source exactly — the parser returns the
/// very state the events fold to, so there is one device per node opening,
/// each device's parent is the node open beneath it when it began, and each
/// device's sealed property list holds its own property events' names and
/// values, in order.
pub proof fn lemma_parse_reconstructs_events(evts: Seq<DtbEvent>, strtab: Seq<u8>)
    requires
        events_ok(evts, 0, SpecParseState::init(), strtab),
    ensures
        spec_parse_struct(encode_events(evts), strtab, 0, SpecParseState::init())
            == Ok::<SpecParseState, DtbError>(
            fold_events(evts, 0, SpecParseState::init(), strtab),
        ),
{
    let s = encode_events(evts);
    assert(s.subrange(0, encode_from(evts, 0).len() as int) =~= encode_from(evts, 0));
    lemma_parse_encode_from(s, strtab, evts, 0, 0, SpecParseState::init());
}

/// A whole synthetic blob: a forty-byte header declaring the structure
/// block right after it and the strings block after that, then the encoded
/// events, then the strings block.
pub open spec fn encode_dtb(evts: Seq<DtbEvent>, strtab: Seq<u8>) -> Seq<u8> {
    let sb = encode_events(evts);
    let header = be32_bytes(MAGIC) + be32_bytes((40 + sb.len() + strtab.len()) as u32) + be32_bytes(
        40u32,
    ) + be32_bytes((40 + sb.len()) as u32) + be32_bytes(0u32) + be32_bytes(17u32) + be32_bytes(
        16u32,
    ) + be32_bytes(0u32) + be32_bytes(strtab.len() as u32) + be32_bytes(sb.len() as u32);
    header + sb + strtab
}

/// Law: parsing a whole synthetic blob assembled from well-formed node and
/// property events reconstructs the source exactly — the device table is the
/// fold of the events, so it has one entry per node, parent links rebuild
/// the nesting, and every device's property list carries the source's names,
/// lengths and contents.
#[verifier::rlimit(100)]
#[verifier::spinoff_prover]
pub proof fn lemma_parse_dtb_reconstructs(evts: Seq<DtbEvent>, strtab: Seq<u8>)
    requires
        events_ok(evts, 0, SpecParseState::init(), strtab),
        40 + encode_events(evts).len() + strtab.len() < 0x100000000,
    ensures
        spec_parse_dtb(encode_dtb(evts, strtab)) == Ok::<SpecParseState, DtbError>(
            fold_events(evts, 0, SpecParseState::init(), strtab),
        ),
{
    let sb = encode_events(evts);
    let header = be32_bytes(MAGIC) + be32_bytes((40 + sb.len() + strtab.len()) as u32) + be32_bytes(
        40u32,
    ) + be32_bytes((40 + sb.len()) as u32) + be32_bytes(0u32) + be32_bytes(17u32) + be32_bytes(
        16u32,
    ) + be32_bytes(0u32) + be32_bytes(strtab.len() as u32) + be32_bytes(sb.len() as u32);
    let blob = encode_dtb(evts, strtab);
    assert(header.len() == 40);
    assert(blob.len() == 40 + sb.len() + strtab.len());
    assert forall|k: int| 0 <= k < 4 implies blob[k] == be32_bytes(MAGIC)[k] by {
        assert(blob[k] == header[k]);
        assert(header[k] == be32_bytes(MAGIC)[k]);
    }
    lemma_be32_roundtrip(blob, 0, MAGIC);
    assert forall|k: int| 0 <= k < 4 implies blob[8 + k] == be32_bytes(40u32)[k] by {
        assert(blob[8 + k] == header[8 + k]);
        assert(header[8 + k] == be32_bytes(40u32)[k]);
    }
    lemma_be32_roundtrip(blob, 8, 40u32);
    let strings_off = (40 + sb.len()) as u32;
    assert forall|k: int| 0 <= k < 4 implies blob[12 + k] == be32_bytes(strings_off)[k] by {
        assert(blob[12 + k] == header[12 + k]);
        assert(header[12 + k] == be32_bytes(strings_off)[k]);
    }
    lemma_be32_roundtrip(blob, 12, strings_off);
    assert(be_u32_at(blob, 0) == MAGIC);
    assert(be_u32_at(blob, 8) == 40);
    assert(be_u32_at(blob, 12) == strings_off);
    let s = blob.subrange(40, blob.len() as int);
    let strs = blob.subrange(strings_off as int, blob.len() as int);
    assert(strs =~= strtab) by {
        assert forall|k: int| 0 <= k < strtab.len() implies strs[k] == strtab[k] by {
            assert(strs[k] == blob[40 + sb.len() + k]);
            assert(blob[40 + sb.len() + k] == strtab[k]);
        }
    }
    assert(s.subrange(0, sb.len() as int) =~= sb) by {
        assert forall|k: int| 0 <= k < sb.len() implies s.subrange(0, sb.len() as int)[k]
            == sb[k] by {
            assert(s[k] == blob[40 + k]);
            assert(blob[40 + k] == sb[k]);
        }
    }
    lemma_parse_encode_from(s, strtab, evts, 0, 0, SpecParseState::init());
    assert(spec_parse_dtb(blob) == spec_parse_struct(s, strs, 0, SpecParseState::init()));
    assert(spec_parse_struct(s, strs, 0, SpecParseState::init()) == spec_parse_struct(
        s,
        strtab,
        0,
        SpecParseState::init(),
    ));
}

/// Law: folding events adds exactly one device per node-begin event, so a
/// parsed table holds as many devices as the source had nodes.
pub proof fn lemma_fold_device_count(
    evts: Seq<DtbEvent>,
    i: int,
    st: SpecParseState,
    strtab: Seq<u8>,
)
    requires
        0 <= i <= evts.len(),
        events_ok(evts, i, st, strtab),
    ensures
        fold_events(evts, i, st, strtab).devices.len() == st.devices.len() + begin_count(evts, i),
    decreases evts.len() - i,
{
    if i < evts.len() {
        let e = evts[i];
        lemma_fold_device_count(evts, i + 1, step_event(st, e, strtab), strtab);
        match e {
            DtbEvent::Begin { name } => {
                assert(step_event(st, e, strtab).devices.len() == st.devices.len() + 1);
            },
            DtbEvent::Prop { nameoff, value } => {
                assert(step_event(st, e, strtab).devices.len() == st.devices.len());
            },
            DtbEvent::EndNode => {
                assert(step_event(st, e, strtab).devices.len() == st.devices.len());
            },
            DtbEvent::Nop => {
            },
        }
    }
}

} // verus!

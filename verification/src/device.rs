//! Platform devices discovered from the device tree, and driver matching.
//!
//! Each device-tree node becomes a [`PlatformDevice`] whose properties are
//! held by value, and whose parent is an index into the device table that the
//! parser builds (parents are always emitted before their children, so a
//! parent index is strictly below its child's). Driver dispatch goes through
//! a closed set of device kinds matched against the node's `compatible`
//! strings.

use vstd::prelude::*;

use crate::bytes::cstr_len;
use crate::bytes::lemma_cstr_len_exact;
use crate::bytes::lemma_cstr_len_to_end;
use crate::bytes::be_u32_at;

verus! {

/// Most properties a single device node can carry.
pub const MAX_PROPS: usize = 16;

/// A single property of a device-tree node, held by value.
pub struct Property {
    /// Property name, e.g. `"reg"` or `"compatible"`.
    pub name: Vec<u8>,
    /// Raw property value bytes.
    pub value: Vec<u8>,
}

/// Mathematical image of a [`Property`].
pub ghost struct SpecProp {
    pub name: Seq<u8>,
    pub value: Seq<u8>,
}

impl View for Property {
    type V = SpecProp;

    open spec fn view(&self) -> SpecProp {
        SpecProp { name: self.name@, value: self.value@ }
    }
}

impl Property {
    /// An empty property with no name and no value.
    pub fn new() -> (p: Property)
        ensures
            p@.name.len() == 0,
            p@.value.len() == 0,
    {
        Property { name: Vec::new(), value: Vec::new() }
    }
}

/// A device discovered from the device tree.
///
/// `prop_count` is the number of leading entries of `properties` that the
/// parser has sealed by reading the node's closing token; a node whose end
/// token never appears keeps its count at zero, exactly as unclosed nodes
/// stay unpopulated in the blob's best-effort reading.
pub struct PlatformDevice {
    /// Index of the parent device in the device table, if any.
    pub parent: Option<usize>,
    /// Node name, e.g. `"pl011@9000000"`.
    pub name: Vec<u8>,
    /// Properties of this node, in blob order.
    pub properties: Vec<Property>,
    /// Number of valid entries at the front of `properties`.
    pub prop_count: usize,
}

/// Mathematical image of a [`PlatformDevice`].
pub ghost struct SpecDevice {
    pub parent: Option<int>,
    pub name: Seq<u8>,
    pub props: Seq<SpecProp>,
    pub prop_count: int,
}

impl View for PlatformDevice {
    type V = SpecDevice;

    open spec fn view(&self) -> SpecDevice {
        SpecDevice {
            parent: match self.parent {
                Some(i) => Some(i as int),
                None => None,
            },
            name: self.name@,
            props: Seq::new(self.properties@.len(), |i: int| self.properties@[i]@),
            prop_count: self.prop_count as int,
        }
    }
}

impl PlatformDevice {
    /// The property list never out-runs its sealed count or its capacity.
    pub open spec fn wf(&self) -> bool {
        &&& self@.prop_count <= self@.props.len()
        &&& self@.props.len() <= MAX_PROPS
    }

    /// An empty root device with no parent, no name and no properties.
    pub fn new() -> (d: PlatformDevice)
        ensures
            d@.parent is None,
            d@.name.len() == 0,
            d@.props.len() == 0,
            d@.prop_count == 0,
            d.wf(),
    {
        let d = PlatformDevice { parent: None, name: Vec::new(), properties: Vec::new(), prop_count: 0 };
        proof {
            assert(d@.props =~= Seq::<SpecProp>::empty());
        }
        d
    }

    /// Finds the first sealed property named `name`, if any.
    pub fn find_property(&self, name: &[u8]) -> (r: Option<&Property>)
        requires
            self.wf(),
        ensures
            match r {
                Some(p) => prop_index(self@.props, self@.prop_count, name@, 0) matches Some(k)
                    && p@ == self@.props[k],
                None => prop_index(self@.props, self@.prop_count, name@, 0) is None,
            },
    {
        let count = self.prop_count;
        let mut i: usize = 0;
        while i < count
            invariant
                0 <= i <= count,
                self.wf(),
                count == self.prop_count,
                prop_index(self@.props, self@.prop_count, name@, 0) == prop_index(
                    self@.props,
                    self@.prop_count,
                    name@,
                    i as int,
                ),
            decreases count - i,
        {
            let p = &self.properties[i];
            if bytes_eq(p.name.as_slice(), name) {
                return Some(p);
            }
            i = i + 1;
        }
        None
    }
}

/// Index of the first property among the sealed `count` whose name is `name`,
/// scanning from position `i` upward.
pub open spec fn prop_index(props: Seq<SpecProp>, count: int, name: Seq<u8>, i: int) -> Option<int>
    decreases count - i when 0 <= i
{
    if i >= count || i >= props.len() {
        None
    } else if props[i].name == name {
        Some(i)
    } else {
        prop_index(props, count, name, i + 1)
    }
}

/// Compares two byte slices for equality of content.
pub fn bytes_eq(a: &[u8], b: &[u8]) -> (r: bool)
    ensures
        r == (a@ == b@),
{
    let n = a.len();
    if n != b.len() {
        return false;
    }
    let mut i: usize = 0;
    while i < n
        invariant
            0 <= i <= n,
            n == a@.len() == b@.len(),
            forall|k: int| 0 <= k < i ==> a@[k] == b@[k],
        decreases n - i,
    {
        if a[i] != b[i] {
            return false;
        }
        i = i + 1;
    }
    proof {
        assert(a@ =~= b@);
    }
    true
}

/// Compares `a[off .. off + len]` with `b` for equality of content.
pub fn range_eq(a: &[u8], off: usize, len: usize, b: &[u8]) -> (r: bool)
    requires
        off + len <= a@.len(),
    ensures
        r == (a@.subrange(off as int, off + len) == b@),
{
    let total = a.len();
    if len != b.len() {
        return false;
    }
    let mut i: usize = 0;
    while i < len
        invariant
            0 <= i <= len,
            off + len <= total == a@.len(),
            len == b@.len(),
            forall|k: int| 0 <= k < i ==> a@[off + k] == b@[k],
        decreases len - i,
    {
        if a[off + i] != b[i] {
            proof {
                assert(a@.subrange(off as int, off + len)[i as int] != b@[i as int]);
            }
            return false;
        }
        i = i + 1;
    }
    proof {
        assert(a@.subrange(off as int, off + len) =~= b@);
    }
    true
}

/// True when one of the zero-separated segments of `value`, read from
/// `off` onward, equals `target` exactly.
pub open spec fn compat_matches_from(value: Seq<u8>, off: int, target: Seq<u8>) -> bool
    decreases value.len() - off when 0 <= off <= value.len()
{
    if off >= value.len() {
        false
    } else {
        let n = cstr_len(value, off) as int;
        let next = if off + n + 1 <= value.len() {
            off + n + 1
        } else {
            value.len() as int
        };
        value.subrange(off, off + n) == target || compat_matches_from(value, next, target)
    }
}

/// True when one of the zero-separated segments of `value` equals `target`.
pub open spec fn compat_matches(value: Seq<u8>, target: Seq<u8>) -> bool {
    compat_matches_from(value, 0, target)
}

/// Checks whether a `compatible` property value contains `target` as one of
/// its zero-separated strings; partial or overlapping matches do not count.
pub fn compatible_matches(prop: &Property, target: &[u8]) -> (r: bool)
    ensures
        r == compat_matches(prop@.value, target@),
{
    let value = prop.value.as_slice();
    let len = value.len();
    let mut offset: usize = 0;
    while offset < len
        invariant
            0 <= offset <= len,
            len == value@.len(),
            value@ == prop@.value,
            compat_matches(prop@.value, target@) == compat_matches_from(
                value@,
                offset as int,
                target@,
            ),
        decreases len - offset,
    {
        let mut l: usize = 0;
        while offset + l < len && value[offset + l] != 0
            invariant
                0 <= l,
                offset + l <= len,
                len == value@.len(),
                forall|k: int| offset <= k < offset + l ==> value@[k] != 0,
            decreases len - offset - l,
        {
            l = l + 1;
        }
        proof {
            if offset + l < len {
                lemma_cstr_len_exact(value@, offset as int, l as int);
            } else {
                lemma_cstr_len_to_end(value@, offset as int);
            }
        }
        if range_eq(value, offset, l, target) {
            return true;
        }
        if offset + l < len {
            offset = offset + l + 1;
        } else {
            offset = len;
        }
    }
    false
}

/// Reads the parent node's `#address-cells` and `#size-cells`, defaulting to
/// two address cells and one size cell as the device-tree format prescribes.
/// Scanning covers every sealed property, so a repeated name takes its last
/// occurrence; a value shorter than four bytes is ignored.
pub fn get_parent_cells_of(parent: &PlatformDevice) -> (r: (u32, u32))
    requires
        parent.wf(),
    ensures
        r.0 == cells_value(parent@.props, parent@.prop_count, address_cells_bytes(), 2),
        r.1 == cells_value(parent@.props, parent@.prop_count, size_cells_bytes(), 1),
{
    let mut addr_cells: u32 = 2;
    let mut size_cells: u32 = 1;
    let addr_name = address_cells_name();
    let size_name = size_cells_name();
    let count = parent.prop_count;
    let mut i: usize = 0;
    while i < count
        invariant
            0 <= i <= count,
            parent.wf(),
            count == parent.prop_count,
            addr_name@ == address_cells_bytes(),
            size_name@ == size_cells_bytes(),
            addr_cells == cells_value(parent@.props, i as int, address_cells_bytes(), 2),
            size_cells == cells_value(parent@.props, i as int, size_cells_bytes(), 1),
        decreases count - i,
    {
        let p = &parent.properties[i];
        if p.value.len() >= 4 {
            if bytes_eq(p.name.as_slice(), addr_name.as_slice()) {
                addr_cells = crate::bytes::read_be_u32(p.value.as_slice(), 0);
            } else if bytes_eq(p.name.as_slice(), size_name.as_slice()) {
                size_cells = crate::bytes::read_be_u32(p.value.as_slice(), 0);
            }
        }
        i = i + 1;
    }
    (addr_cells, size_cells)
}

/// The value of the last property among the first `count` that is named
/// `name` and is at least four bytes long, read as a big-endian `u32`;
/// `dflt` when there is none.
pub open spec fn cells_value(props: Seq<SpecProp>, count: int, name: Seq<u8>, dflt: u32) -> u32
    decreases count when count <= props.len()
{
    if count <= 0 || count > props.len() {
        dflt
    } else {
        let p = props[count - 1];
        if p.name == name && p.value.len() >= 4 {
            be_u32_at(p.value, 0)
        } else {
            cells_value(props, count - 1, name, dflt)
        }
    }
}

/// The closed set of hardware classes this kernel drives.
#[derive(Clone, Copy, PartialEq, Eq, Structural, Debug)]
pub enum DeviceKind {
    /// The GICv3 interrupt controller.
    InterruptController,
    /// The PL011 serial port.
    Uart,
    /// The ARM generic timer.
    Timer,
}

/// An entry of the driver match table: a `compatible` string together with
/// the device kind whose setup routine claims the node.
pub struct DeviceMatch {
    /// Compatible string to match, e.g. `"arm,pl011"`.
    pub compatible: Vec<u8>,
    /// Hardware class set up when a node matches.
    pub setup: DeviceKind,
}

/// Mathematical image of a [`DeviceMatch`].
pub ghost struct SpecMatch {
    pub compatible: Seq<u8>,
    pub setup: DeviceKind,
}

impl View for DeviceMatch {
    type V = SpecMatch;

    open spec fn view(&self) -> SpecMatch {
        SpecMatch { compatible: self.compatible@, setup: self.setup }
    }
}

/// The driver match table: interrupt controller, serial port, timer.
pub open spec fn spec_configured_devices() -> Seq<SpecMatch> {
    seq![
        SpecMatch { compatible: compat_gic_bytes(), setup: DeviceKind::InterruptController },
        SpecMatch { compatible: compat_uart_bytes(), setup: DeviceKind::Uart },
        SpecMatch { compatible: compat_timer_bytes(), setup: DeviceKind::Timer },
    ]
}

/// Builds the driver match table, one entry per supported hardware class.
pub fn configured_devices() -> (t: Vec<DeviceMatch>)
    ensures
        matches_view(t@) == spec_configured_devices(),
{
    let mut t: Vec<DeviceMatch> = Vec::new();
    t.push(DeviceMatch { compatible: compat_gic_name(), setup: DeviceKind::InterruptController });
    t.push(DeviceMatch { compatible: compat_uart_name(), setup: DeviceKind::Uart });
    t.push(DeviceMatch { compatible: compat_timer_name(), setup: DeviceKind::Timer });
    proof {
        assert(matches_view(t@) =~= spec_configured_devices());
    }
    t
}

/// The per-entry mathematical image of a match table.
pub open spec fn matches_view(t: Seq<DeviceMatch>) -> Seq<SpecMatch> {
    Seq::new(t.len(), |i: int| t[i]@)
}

/// The name `"phandle"`, as bytes.
pub open spec fn phandle_bytes() -> Seq<u8> {
    seq!['p' as u8, 'h' as u8, 'a' as u8, 'n' as u8, 'd' as u8, 'l' as u8, 'e' as u8]
}

/// Builds the name `"phandle"` as a byte vector.
pub fn phandle_name() -> (v: Vec<u8>)
    ensures
        v@ == phandle_bytes(),
{
    let v: Vec<u8> = vec!['p' as u8, 'h' as u8, 'a' as u8, 'n' as u8, 'd' as u8, 'l' as u8, 'e' as u8];
    proof {
        assert(v@ =~= phandle_bytes());
    }
    v
}

/// The name `"interrupt-parent"`, as bytes.
pub open spec fn interrupt_parent_bytes() -> Seq<u8> {
    seq!['i' as u8, 'n' as u8, 't' as u8, 'e' as u8, 'r' as u8, 'r' as u8, 'u' as u8, 'p' as u8, 't' as u8, '-' as u8, 'p' as u8, 'a' as u8, 'r' as u8, 'e' as u8, 'n' as u8, 't' as u8]
}

/// Builds the name `"interrupt-parent"` as a byte vector.
pub fn interrupt_parent_name() -> (v: Vec<u8>)
    ensures
        v@ == interrupt_parent_bytes(),
{
    let v: Vec<u8> = vec!['i' as u8, 'n' as u8, 't' as u8, 'e' as u8, 'r' as u8, 'r' as u8, 'u' as u8, 'p' as u8, 't' as u8, '-' as u8, 'p' as u8, 'a' as u8, 'r' as u8, 'e' as u8, 'n' as u8, 't' as u8];
    proof {
        assert(v@ =~= interrupt_parent_bytes());
    }
    v
}

/// The name `"#address-cells"`, as bytes.
pub open spec fn address_cells_bytes() -> Seq<u8> {
    seq!['#' as u8, 'a' as u8, 'd' as u8, 'd' as u8, 'r' as u8, 'e' as u8, 's' as u8, 's' as u8, '-' as u8, 'c' as u8, 'e' as u8, 'l' as u8, 'l' as u8, 's' as u8]
}

/// Builds the name `"#address-cells"` as a byte vector.
pub fn address_cells_name() -> (v: Vec<u8>)
    ensures
        v@ == address_cells_bytes(),
{
    let v: Vec<u8> = vec!['#' as u8, 'a' as u8, 'd' as u8, 'd' as u8, 'r' as u8, 'e' as u8, 's' as u8, 's' as u8, '-' as u8, 'c' as u8, 'e' as u8, 'l' as u8, 'l' as u8, 's' as u8];
    proof {
        assert(v@ =~= address_cells_bytes());
    }
    v
}

/// The name `"#size-cells"`, as bytes.
pub open spec fn size_cells_bytes() -> Seq<u8> {
    seq!['#' as u8, 's' as u8, 'i' as u8, 'z' as u8, 'e' as u8, '-' as u8, 'c' as u8, 'e' as u8, 'l' as u8, 'l' as u8, 's' as u8]
}

/// Builds the name `"#size-cells"` as a byte vector.
pub fn size_cells_name() -> (v: Vec<u8>)
    ensures
        v@ == size_cells_bytes(),
{
    let v: Vec<u8> = vec!['#' as u8, 's' as u8, 'i' as u8, 'z' as u8, 'e' as u8, '-' as u8, 'c' as u8, 'e' as u8, 'l' as u8, 'l' as u8, 's' as u8];
    proof {
        assert(v@ =~= size_cells_bytes());
    }
    v
}

/// The name `"#interrupt-cells"`, as bytes.
pub open spec fn interrupt_cells_bytes() -> Seq<u8> {
    seq!['#' as u8, 'i' as u8, 'n' as u8, 't' as u8, 'e' as u8, 'r' as u8, 'r' as u8, 'u' as u8, 'p' as u8, 't' as u8, '-' as u8, 'c' as u8, 'e' as u8, 'l' as u8, 'l' as u8, 's' as u8]
}

/// Builds the name `"#interrupt-cells"` as a byte vector.
pub fn interrupt_cells_name() -> (v: Vec<u8>)
    ensures
        v@ == interrupt_cells_bytes(),
{
    let v: Vec<u8> = vec!['#' as u8, 'i' as u8, 'n' as u8, 't' as u8, 'e' as u8, 'r' as u8, 'r' as u8, 'u' as u8, 'p' as u8, 't' as u8, '-' as u8, 'c' as u8, 'e' as u8, 'l' as u8, 'l' as u8, 's' as u8];
    proof {
        assert(v@ =~= interrupt_cells_bytes());
    }
    v
}

/// The name `"compatible"`, as bytes.
pub open spec fn compatible_bytes() -> Seq<u8> {
    seq!['c' as u8, 'o' as u8, 'm' as u8, 'p' as u8, 'a' as u8, 't' as u8, 'i' as u8, 'b' as u8, 'l' as u8, 'e' as u8]
}

/// Builds the name `"compatible"` as a byte vector.
pub fn compatible_name() -> (v: Vec<u8>)
    ensures
        v@ == compatible_bytes(),
{
    let v: Vec<u8> = vec!['c' as u8, 'o' as u8, 'm' as u8, 'p' as u8, 'a' as u8, 't' as u8, 'i' as u8, 'b' as u8, 'l' as u8, 'e' as u8];
    proof {
        assert(v@ =~= compatible_bytes());
    }
    v
}

/// The name `"reg"`, as bytes.
pub open spec fn reg_bytes() -> Seq<u8> {
    seq!['r' as u8, 'e' as u8, 'g' as u8]
}

/// Builds the name `"reg"` as a byte vector.
pub fn reg_name() -> (v: Vec<u8>)
    ensures
        v@ == reg_bytes(),
{
    let v: Vec<u8> = vec!['r' as u8, 'e' as u8, 'g' as u8];
    proof {
        assert(v@ =~= reg_bytes());
    }
    v
}

/// The name `"interrupts"`, as bytes.
pub open spec fn interrupts_bytes() -> Seq<u8> {
    seq!['i' as u8, 'n' as u8, 't' as u8, 'e' as u8, 'r' as u8, 'r' as u8, 'u' as u8, 'p' as u8, 't' as u8, 's' as u8]
}

/// Builds the name `"interrupts"` as a byte vector.
pub fn interrupts_name() -> (v: Vec<u8>)
    ensures
        v@ == interrupts_bytes(),
{
    let v: Vec<u8> = vec!['i' as u8, 'n' as u8, 't' as u8, 'e' as u8, 'r' as u8, 'r' as u8, 'u' as u8, 'p' as u8, 't' as u8, 's' as u8];
    proof {
        assert(v@ =~= interrupts_bytes());
    }
    v
}

/// The name `"arm,gic-v3"`, as bytes.
pub open spec fn compat_gic_bytes() -> Seq<u8> {
    seq!['a' as u8, 'r' as u8, 'm' as u8, ',' as u8, 'g' as u8, 'i' as u8, 'c' as u8, '-' as u8, 'v' as u8, '3' as u8]
}

/// Builds the name `"arm,gic-v3"` as a byte vector.
pub fn compat_gic_name() -> (v: Vec<u8>)
    ensures
        v@ == compat_gic_bytes(),
{
    let v: Vec<u8> = vec!['a' as u8, 'r' as u8, 'm' as u8, ',' as u8, 'g' as u8, 'i' as u8, 'c' as u8, '-' as u8, 'v' as u8, '3' as u8];
    proof {
        assert(v@ =~= compat_gic_bytes());
    }
    v
}

/// The name `"arm,pl011"`, as bytes.
pub open spec fn compat_uart_bytes() -> Seq<u8> {
    seq!['a' as u8, 'r' as u8, 'm' as u8, ',' as u8, 'p' as u8, 'l' as u8, '0' as u8, '1' as u8, '1' as u8]
}

/// Builds the name `"arm,pl011"` as a byte vector.
pub fn compat_uart_name() -> (v: Vec<u8>)
    ensures
        v@ == compat_uart_bytes(),
{
    let v: Vec<u8> = vec!['a' as u8, 'r' as u8, 'm' as u8, ',' as u8, 'p' as u8, 'l' as u8, '0' as u8, '1' as u8, '1' as u8];
    proof {
        assert(v@ =~= compat_uart_bytes());
    }
    v
}

/// The name `"arm,armv7-timer"`, as bytes.
pub open spec fn compat_timer_bytes() -> Seq<u8> {
    seq!['a' as u8, 'r' as u8, 'm' as u8, ',' as u8, 'a' as u8, 'r' as u8, 'm' as u8, 'v' as u8, '7' as u8, '-' as u8, 't' as u8, 'i' as u8, 'm' as u8, 'e' as u8, 'r' as u8]
}

/// Builds the name `"arm,armv7-timer"` as a byte vector.
pub fn compat_timer_name() -> (v: Vec<u8>)
    ensures
        v@ == compat_timer_bytes(),
{
    let v: Vec<u8> = vec!['a' as u8, 'r' as u8, 'm' as u8, ',' as u8, 'a' as u8, 'r' as u8, 'm' as u8, 'v' as u8, '7' as u8, '-' as u8, 't' as u8, 'i' as u8, 'm' as u8, 'e' as u8, 'r' as u8];
    proof {
        assert(v@ =~= compat_timer_bytes());
    }
    v
}


} // verus!

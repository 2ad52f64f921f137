//! Parsing synthetic device tree blobs.

use aarch64_kernel::device::{compatible_matches, Property};
use aarch64_kernel::dtb::{
    find_device_by_phandle, find_interrupt_parent, get_property_name, init_devices, parse_dtb,
    DtbError, FdtHeader, FdtPropHeader,
};
use aarch64_kernel::device::DeviceKind;

const FDT_BEGIN_NODE: u32 = 1;
const FDT_END_NODE: u32 = 2;
const FDT_PROP: u32 = 3;
const FDT_NOP: u32 = 4;
const FDT_END: u32 = 9;

/// Accumulates a structure block and its strings block.
struct BlobBuilder {
    structure: Vec<u8>,
    strings: Vec<u8>,
}

impl BlobBuilder {
    fn new() -> BlobBuilder {
        BlobBuilder { structure: Vec::new(), strings: Vec::new() }
    }

    fn be32(out: &mut Vec<u8>, x: u32) {
        out.extend_from_slice(&x.to_be_bytes());
    }

    fn align(out: &mut Vec<u8>) {
        while out.len() % 4 != 0 {
            out.push(0);
        }
    }

    fn string_offset(&mut self, name: &[u8]) -> u32 {
        let off = self.strings.len() as u32;
        self.strings.extend_from_slice(name);
        self.strings.push(0);
        off
    }

    fn begin_node(&mut self, name: &[u8]) {
        Self::be32(&mut self.structure, FDT_BEGIN_NODE);
        self.structure.extend_from_slice(name);
        self.structure.push(0);
        Self::align(&mut self.structure);
    }

    fn prop(&mut self, name: &[u8], value: &[u8]) {
        let nameoff = self.string_offset(name);
        Self::be32(&mut self.structure, FDT_PROP);
        Self::be32(&mut self.structure, value.len() as u32);
        Self::be32(&mut self.structure, nameoff);
        self.structure.extend_from_slice(value);
        Self::align(&mut self.structure);
    }

    fn end_node(&mut self) {
        Self::be32(&mut self.structure, FDT_END_NODE);
    }

    fn nop(&mut self) {
        Self::be32(&mut self.structure, FDT_NOP);
    }

    fn finish(mut self) -> Vec<u8> {
        Self::be32(&mut self.structure, FDT_END);
        let off_struct = 40u32;
        let off_strings = off_struct + self.structure.len() as u32;
        let totalsize = off_strings + self.strings.len() as u32;
        let mut blob = Vec::new();
        Self::be32(&mut blob, 0xd00dfeed);
        Self::be32(&mut blob, totalsize);
        Self::be32(&mut blob, off_struct);
        Self::be32(&mut blob, off_strings);
        Self::be32(&mut blob, 0); // memory reserve map
        Self::be32(&mut blob, 17); // version
        Self::be32(&mut blob, 16); // last compatible version
        Self::be32(&mut blob, 0); // boot cpu
        Self::be32(&mut blob, self.strings.len() as u32);
        Self::be32(&mut blob, self.structure.len() as u32);
        blob.extend_from_slice(&self.structure);
        blob.extend_from_slice(&self.strings);
        blob
    }
}

/// A blob with a root, a GIC node carrying a phandle, and a UART node whose
/// interrupts resolve through the root's interrupt parent.
fn sample_blob() -> Vec<u8> {
    let mut b = BlobBuilder::new();
    b.begin_node(b"");
    b.prop(b"#address-cells", &2u32.to_be_bytes());
    b.prop(b"#size-cells", &1u32.to_be_bytes());
    b.prop(b"interrupt-parent", &7u32.to_be_bytes());
    {
        b.begin_node(b"intc@8000000");
        b.prop(b"compatible", b"arm,gic-v3\0");
        b.prop(b"phandle", &7u32.to_be_bytes());
        b.prop(b"#interrupt-cells", &3u32.to_be_bytes());
        let mut reg = Vec::new();
        reg.extend_from_slice(&0x0800_0000u64.to_be_bytes());
        reg.extend_from_slice(&0x10000u32.to_be_bytes());
        reg.extend_from_slice(&0x080A_0000u64.to_be_bytes());
        reg.extend_from_slice(&0xf60000u32.to_be_bytes());
        b.prop(b"reg", &reg);
        b.end_node();
    }
    {
        b.begin_node(b"pl011@9000000");
        b.prop(b"compatible", b"arm,pl011\0arm,primecell\0");
        let mut reg = Vec::new();
        reg.extend_from_slice(&0x0900_0000u64.to_be_bytes());
        reg.extend_from_slice(&0x1000u32.to_be_bytes());
        b.prop(b"reg", &reg);
        let mut ints = Vec::new();
        for c in [0u32, 1, 4] {
            ints.extend_from_slice(&c.to_be_bytes());
        }
        b.prop(b"interrupts", &ints);
        b.end_node();
    }
    b.nop();
    {
        b.begin_node(b"timer");
        b.prop(b"compatible", b"arm,armv7-timer\0");
        // four specifiers: secure, non-secure, virtual, hypervisor
        let mut ints = Vec::new();
        for c in [1u32, 13, 4, 1, 14, 4, 1, 11, 4, 1, 10, 4] {
            ints.extend_from_slice(&c.to_be_bytes());
        }
        b.prop(b"interrupts", &ints);
        b.end_node();
    }
    b.end_node();
    b.finish()
}

#[test]
fn parse_sample_blob_reconstructs_nodes() {
    let blob = sample_blob();
    let table = parse_dtb(&blob).expect("well-formed blob parses");
    assert_eq!(table.devices.len(), 4);

    let root = &table.devices[0];
    assert_eq!(root.parent, None);
    assert_eq!(root.name, b"");
    assert_eq!(root.prop_count, 3);
    assert_eq!(root.properties[0].name, b"#address-cells");
    assert_eq!(root.properties[0].value, 2u32.to_be_bytes().to_vec());
    assert_eq!(root.properties[1].name, b"#size-cells");
    assert_eq!(root.properties[2].name, b"interrupt-parent");

    let gic = &table.devices[1];
    assert_eq!(gic.parent, Some(0));
    assert_eq!(gic.name, b"intc@8000000");
    assert_eq!(gic.prop_count, 4);
    assert_eq!(gic.properties[0].name, b"compatible");
    assert_eq!(gic.properties[0].value, b"arm,gic-v3\0".to_vec());

    let uart = &table.devices[2];
    assert_eq!(uart.parent, Some(0));
    assert_eq!(uart.name, b"pl011@9000000");
    assert_eq!(uart.prop_count, 3);
    assert_eq!(uart.properties[1].name, b"reg");
    assert_eq!(uart.properties[1].value.len(), 12);

    let timer = &table.devices[3];
    assert_eq!(timer.parent, Some(0));
    assert_eq!(timer.name, b"timer");
    assert_eq!(timer.prop_count, 2);
    assert_eq!(timer.properties[1].value.len(), 48);
}

#[test]
fn parse_rejects_bad_magic() {
    let mut blob = sample_blob();
    blob[0] = 0;
    assert_eq!(parse_dtb(&blob).err(), Some(DtbError::BadMagic));
}

#[test]
fn parse_rejects_unknown_token() {
    let mut b = BlobBuilder::new();
    b.begin_node(b"");
    b.end_node();
    let mut blob = b.finish();
    // overwrite the end token with an unknown one
    let n = blob.len();
    blob[n - 4] = 0;
    blob[n - 3] = 0;
    blob[n - 2] = 0;
    blob[n - 1] = 42;
    assert_eq!(parse_dtb(&blob).err(), Some(DtbError::UnknownToken));
}

#[test]
fn parse_rejects_truncated_blob() {
    let blob = sample_blob();
    assert_eq!(parse_dtb(&blob[..20]).err(), Some(DtbError::Truncated));
    // cut inside the structure block
    assert_eq!(parse_dtb(&blob[..44]).err(), Some(DtbError::Truncated));
}

#[test]
fn parse_rejects_unbalanced_end() {
    let mut b = BlobBuilder::new();
    b.end_node();
    let blob = b.finish();
    assert_eq!(parse_dtb(&blob).err(), Some(DtbError::Unbalanced));
}

#[test]
fn parse_rejects_excess_depth() {
    let mut b = BlobBuilder::new();
    for _ in 0..11 {
        b.begin_node(b"n");
    }
    for _ in 0..11 {
        b.end_node();
    }
    let blob = b.finish();
    assert_eq!(parse_dtb(&blob).err(), Some(DtbError::CapacityExceeded));
}

#[test]
fn phandle_lookup_finds_exactly_the_registered_value() {
    let blob = sample_blob();
    let table = parse_dtb(&blob).expect("parses");
    let gic = find_device_by_phandle(&table, 7).expect("phandle 7 is registered");
    assert_eq!(gic.name, b"intc@8000000");
    assert!(find_device_by_phandle(&table, 6).is_none());
    assert!(find_device_by_phandle(&table, 8).is_none());
    assert!(find_device_by_phandle(&table, 0).is_none());
}

#[test]
fn interrupt_parent_resolves_through_the_root() {
    let blob = sample_blob();
    let table = parse_dtb(&blob).expect("parses");
    let uart = &table.devices[2];
    let intc = find_interrupt_parent(&table, uart).expect("uart has an interrupt parent");
    assert_eq!(intc.name, b"intc@8000000");
    // the root itself has no parent chain carrying the property
    let root = &table.devices[0];
    assert!(find_interrupt_parent(&table, root).is_none());
}

#[test]
fn parent_cells_come_from_the_parent_node() {
    let blob = sample_blob();
    let table = parse_dtb(&blob).expect("parses");
    let uart = &table.devices[2];
    assert_eq!(uart.get_parent_cells(&table), (2, 1));
    // the root has no parent: device-tree defaults
    let root = &table.devices[0];
    assert_eq!(root.get_parent_cells(&table), (2, 1));
}

#[test]
fn compatible_matches_whole_segments_only() {
    let prop = Property { name: b"compatible".to_vec(), value: b"arm,pl011\0arm,primecell\0".to_vec() };
    assert!(compatible_matches(&prop, b"arm,pl011"));
    assert!(compatible_matches(&prop, b"arm,primecell"));
    assert!(!compatible_matches(&prop, b"arm,primecell2"));
    assert!(!compatible_matches(&prop, b"arm,pl01"));
    assert!(!compatible_matches(&prop, b"rm,pl011"));
    assert!(!compatible_matches(&prop, b""));
}

#[test]
fn dispatch_runs_the_interrupt_controller_first() {
    let blob = sample_blob();
    let table = parse_dtb(&blob).expect("parses");
    let plan = init_devices(&table);
    assert_eq!(
        plan,
        vec![
            (1, DeviceKind::InterruptController),
            (2, DeviceKind::Uart),
            (3, DeviceKind::Timer),
        ]
    );
}

#[test]
fn header_fields_read_back_big_endian() {
    let blob = sample_blob();
    let header = FdtHeader::from_be_bytes(&blob);
    assert_eq!(header.magic, 0xd00dfeed);
    assert_eq!(header.off_dt_struct, 40);
    assert_eq!(header.totalsize as usize, blob.len());
    assert_eq!(header.version, 17);
    assert_eq!(header.last_comp_version, 16);
}

#[test]
fn prop_header_reads_length_and_name_offset() {
    let bytes = [0u8, 0, 0, 12, 0, 0, 0, 5];
    let h = FdtPropHeader::from_be_bytes(&bytes, 0);
    assert_eq!(h.len, 12);
    assert_eq!(h.nameoff, 5);
}

#[test]
fn property_names_come_from_the_strings_block() {
    let strings = b"reg\0compatible\0";
    assert_eq!(get_property_name(strings, 0), Some(b"reg".to_vec()));
    assert_eq!(get_property_name(strings, 4), Some(b"compatible".to_vec()));
    assert_eq!(get_property_name(strings, 6), Some(b"mpatible".to_vec()));
    assert_eq!(get_property_name(strings, 99), None);
    // no terminator after the offset
    assert_eq!(get_property_name(b"abc", 1), None);
}

#[test]
fn properties_after_a_child_join_the_parent() {
    let mut b = BlobBuilder::new();
    b.begin_node(b"parent");
    b.prop(b"first", &[1]);
    b.begin_node(b"child");
    b.prop(b"inner", &[9]);
    b.end_node();
    b.prop(b"second", &[2]);
    b.end_node();
    let table = parse_dtb(&b.finish()).expect("parses");
    assert_eq!(table.devices.len(), 2);
    let parent = &table.devices[0];
    assert_eq!(parent.prop_count, 2);
    assert_eq!(parent.properties[0].name, b"first");
    assert_eq!(parent.properties[1].name, b"second");
    let child = &table.devices[1];
    assert_eq!(child.prop_count, 1);
    assert_eq!(child.properties[0].name, b"inner");
    assert_eq!(child.parent, Some(0));
}

#[test]
fn duplicate_names_resolve_first_for_find_and_last_for_cells() {
    let mut b = BlobBuilder::new();
    b.begin_node(b"parent");
    b.prop(b"#address-cells", &1u32.to_be_bytes());
    b.prop(b"#address-cells", &2u32.to_be_bytes());
    b.begin_node(b"child");
    b.end_node();
    b.end_node();
    let table = parse_dtb(&b.finish()).expect("parses");
    let parent = &table.devices[0];
    // a linear search takes the first occurrence
    let found = parent.find_property(b"#address-cells").expect("present");
    assert_eq!(found.value, 1u32.to_be_bytes().to_vec());
    // the cell scan walks every property, so the last occurrence wins
    let child = &table.devices[1];
    assert_eq!(child.get_parent_cells(&table), (2, 1));
}

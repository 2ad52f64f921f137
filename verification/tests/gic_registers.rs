//! GICv3 register-file operations: bit-exact updates and setup sequencing.

use aarch64_kernel::gic::{
    enable_grp0_ints, enable_grp1_ints, enable_int, enable_spi, gic_reg_config,
    init_gic_distributor, init_gic_redistributor, parse_reg_blocks, ppi_cfg_offset,
    ppi_priority_offset, redistributor_awake, set_int_grp, set_int_priority, set_priority_mask,
    set_ppi_trigger_edge, set_ppi_trigger_level, set_spi_group, set_spi_priority, set_spi_routing,
    set_spi_trigger, setup, spi_cfg_offset, spi_enable_offset, spi_group_offset,
    spi_priority_offset, spi_router_offset, CpuInterface, Distributor, Gicv3, Redistributor,
    GICR_WAKER_CASLEEP, GICR_WAKER_PSLEEP,
};
use aarch64_kernel::device::Property;
use aarch64_kernel::dtb::parse_dtb;

fn byte_of(word: u32, k: u32) -> u8 {
    ((word >> (k * 8)) & 0xff) as u8
}

fn field_of(word: u32, k: u32) -> u32 {
    (word >> (k * 2)) & 0b11
}

#[test]
fn spi_priority_touches_one_byte_of_word_nine() {
    let mut dist = Distributor::new();
    // fill the word that carries id 37 with distinct neighbour priorities
    set_spi_priority(&mut dist, 36, 0x11);
    set_spi_priority(&mut dist, 38, 0x33);
    set_spi_priority(&mut dist, 39, 0x44);
    let before = dist.ipriorityr[9];
    set_spi_priority(&mut dist, 37, 0xA5);
    let after = dist.ipriorityr[9];
    // byte index one carries interrupt 37; the other three bytes survive
    assert_eq!(byte_of(after, 1), 0xA5);
    assert_eq!(byte_of(after, 0), byte_of(before, 0));
    assert_eq!(byte_of(after, 2), byte_of(before, 2));
    assert_eq!(byte_of(after, 3), byte_of(before, 3));
    assert_eq!(byte_of(after, 0), 0x11);
    assert_eq!(byte_of(after, 2), 0x33);
    assert_eq!(byte_of(after, 3), 0x44);
    // the neighbouring priority words are untouched
    assert_eq!(dist.ipriorityr[8], 0);
    assert_eq!(dist.ipriorityr[10], 0);
    assert_eq!(spi_priority_offset(37), 0x400 + 9 * 4);
}

#[test]
fn ppi_trigger_touches_exactly_two_bits() {
    let mut redist = Redistributor::new();
    // give interrupt 17 a trigger mode first, then flip interrupt 16
    set_ppi_trigger_edge(&mut redist, 17);
    let before = redist.icfgr[1];
    set_ppi_trigger_edge(&mut redist, 16);
    let after_edge = redist.icfgr[1];
    assert_eq!(field_of(after_edge, 0), 0b10);
    assert_eq!(field_of(after_edge, 1), field_of(before, 1));
    set_ppi_trigger_level(&mut redist, 16);
    let after_level = redist.icfgr[1];
    assert_eq!(field_of(after_level, 0), 0b00);
    assert_eq!(field_of(after_level, 1), field_of(before, 1));
    // the other configuration word is untouched
    assert_eq!(redist.icfgr[0], 0);
    assert_eq!(ppi_cfg_offset(16), 0x10000 + 0xC00 + 4);
    assert_eq!(spi_cfg_offset(37), 0xC00 + 2 * 4);
}

#[test]
fn enable_and_group_set_single_bits() {
    let mut dist = Distributor::new();
    let bit = enable_spi(&mut dist, 33);
    assert_eq!(bit, 1 << 1);
    assert_eq!(dist.isenabler[1], 1 << 1);
    enable_spi(&mut dist, 37);
    assert_eq!(dist.isenabler[1], (1 << 1) | (1 << 5));
    set_spi_group(&mut dist, 33);
    assert_eq!(dist.igroupr[1], 1 << 1);
    assert_eq!(spi_enable_offset(33), 0x100 + 4);
    assert_eq!(spi_group_offset(33), 0x080 + 4);

    let mut redist = Redistributor::new();
    enable_int(&mut redist, 30);
    set_int_grp(&mut redist, 30);
    assert_eq!(redist.isenabler0, 1 << 30);
    assert_eq!(redist.igroupr0, 1 << 30);
    set_int_priority(&mut redist, 30, 0x80);
    assert_eq!(byte_of(redist.ipriorityr[7], 2), 0x80);
    assert_eq!(ppi_priority_offset(30), 0x10000 + 0x400 + 7 * 4);
}

#[test]
fn routing_writes_the_whole_doubleword() {
    let mut dist = Distributor::new();
    set_spi_routing(&mut dist, 37, 0x0001_0000_0000_0203);
    assert_eq!(dist.irouter[37], 0x0001_0000_0000_0203);
    assert_eq!(dist.irouter[36], 0);
    assert_eq!(spi_router_offset(37), 0x6100 + 8 * 37);
}

#[test]
fn distributor_init_reports_affinity_routing() {
    let mut dist = Distributor::new();
    let affinity = init_gic_distributor(&mut dist);
    assert_eq!(dist.ctlr, 0b110);
    assert!(!affinity);
    let mut dist2 = Distributor::new();
    dist2.ctlr = 0b10000;
    let affinity2 = init_gic_distributor(&mut dist2);
    assert_eq!(dist2.ctlr, 0b10110);
    assert!(affinity2);
}

#[test]
fn redistributor_wake_clears_the_sleep_bit() {
    let mut redist = Redistributor::new();
    assert_eq!(redist.waker, GICR_WAKER_PSLEEP | GICR_WAKER_CASLEEP);
    init_gic_redistributor(&mut redist);
    assert_eq!(redist.waker & GICR_WAKER_PSLEEP, 0);
    assert!(!redistributor_awake(GICR_WAKER_CASLEEP));
    assert!(redistributor_awake(0));
}

#[test]
fn cpu_interface_enables_groups_and_mask() {
    let mut cpuif = CpuInterface::new();
    set_priority_mask(&mut cpuif, 0xff);
    assert_eq!(cpuif.pmr, 0xff);
    enable_grp0_ints(&mut cpuif);
    enable_grp1_ints(&mut cpuif);
    assert_eq!(cpuif.igrpen0, 1);
    assert_eq!(cpuif.igrpen1, 1);
}

#[test]
fn reg_blocks_split_by_parent_cells() {
    let mut value = Vec::new();
    value.extend_from_slice(&0x0800_0000u64.to_be_bytes());
    value.extend_from_slice(&0x10000u32.to_be_bytes());
    value.extend_from_slice(&0x080A_0000u64.to_be_bytes());
    value.extend_from_slice(&0xf60000u32.to_be_bytes());
    let prop = Property { name: b"reg".to_vec(), value };
    assert_eq!(parse_reg_blocks(&prop, 2, 1), Some((0x0800_0000, 0x080A_0000)));
    // one-cell addresses read the first word of each block
    let mut v1 = Vec::new();
    v1.extend_from_slice(&0x1000u32.to_be_bytes());
    v1.extend_from_slice(&0x40u32.to_be_bytes());
    v1.extend_from_slice(&0x2000u32.to_be_bytes());
    v1.extend_from_slice(&0x40u32.to_be_bytes());
    let p1 = Property { name: b"reg".to_vec(), value: v1 };
    assert_eq!(parse_reg_blocks(&p1, 1, 1), Some((0x1000, 0x2000)));
    // too short, or an unsupported address width, configures nothing
    let short = Property { name: b"reg".to_vec(), value: vec![0; 8] };
    assert_eq!(parse_reg_blocks(&short, 2, 1), None);
    assert_eq!(parse_reg_blocks(&p1, 3, 1), None);
}

#[test]
fn gic_setup_follows_the_discovered_bases() {
    let blob = sample_gic_blob();
    let table = parse_dtb(&blob).expect("parses");
    let gic_dev = &table.devices[1];
    let (dist_base, redist_base) =
        gic_reg_config(&table, gic_dev).expect("the controller node carries reg");
    assert_eq!(dist_base, 0x0800_0000);
    assert_eq!(redist_base, 0x080A_0000);
    let mut gic = Gicv3::new();
    setup(&mut gic, dist_base, redist_base);
    assert_eq!(gic.dist_base, 0x0800_0000);
    assert_eq!(gic.redist_base, 0x080A_0000);
    assert_eq!(gic.dist.ctlr, 0b110);
    assert_eq!(gic.redist.waker & GICR_WAKER_PSLEEP, 0);
    assert_eq!(gic.cpuif.pmr, 0xff);
    assert_eq!(gic.cpuif.igrpen1, 1);
}

/// A minimal blob holding just a root and a controller node with `reg`.
fn sample_gic_blob() -> Vec<u8> {
    let mut structure = Vec::new();
    let mut strings = Vec::new();
    let mut add_string = |strings: &mut Vec<u8>, s: &[u8]| -> u32 {
        let off = strings.len() as u32;
        strings.extend_from_slice(s);
        strings.push(0);
        off
    };
    let be32 = |out: &mut Vec<u8>, x: u32| out.extend_from_slice(&x.to_be_bytes());
    let align = |out: &mut Vec<u8>| {
        while out.len() % 4 != 0 {
            out.push(0);
        }
    };
    // root
    be32(&mut structure, 1);
    structure.push(0);
    align(&mut structure);
    // #address-cells = 2, #size-cells = 1
    for (name, v) in [(&b"#address-cells"[..], 2u32), (&b"#size-cells"[..], 1u32)] {
        let off = add_string(&mut strings, name);
        be32(&mut structure, 3);
        be32(&mut structure, 4);
        be32(&mut structure, off);
        structure.extend_from_slice(&v.to_be_bytes());
    }
    // controller node
    be32(&mut structure, 1);
    structure.extend_from_slice(b"intc");
    structure.push(0);
    align(&mut structure);
    let reg_off = add_string(&mut strings, b"reg");
    let mut reg = Vec::new();
    reg.extend_from_slice(&0x0800_0000u64.to_be_bytes());
    reg.extend_from_slice(&0x10000u32.to_be_bytes());
    reg.extend_from_slice(&0x080A_0000u64.to_be_bytes());
    reg.extend_from_slice(&0xf60000u32.to_be_bytes());
    be32(&mut structure, 3);
    be32(&mut structure, reg.len() as u32);
    be32(&mut structure, reg_off);
    structure.extend_from_slice(&reg);
    align(&mut structure);
    be32(&mut structure, 2);
    be32(&mut structure, 2);
    be32(&mut structure, 9);

    let mut blob = Vec::new();
    be32(&mut blob, 0xd00dfeed);
    be32(&mut blob, (40 + structure.len() + strings.len()) as u32);
    be32(&mut blob, 40);
    be32(&mut blob, (40 + structure.len()) as u32);
    be32(&mut blob, 0);
    be32(&mut blob, 17);
    be32(&mut blob, 16);
    be32(&mut blob, 0);
    be32(&mut blob, strings.len() as u32);
    be32(&mut blob, structure.len() as u32);
    blob.extend_from_slice(&structure);
    blob.extend_from_slice(&strings);
    blob
}

#[test]
fn spi_trigger_clears_to_level_mode() {
    let mut dist = Distributor::new();
    dist.icfgr[2] = 0xffff_ffff;
    set_spi_trigger(&mut dist, 37);
    // interrupt 37 sits in word two, field five
    assert_eq!(field_of(dist.icfgr[2], 5), 0b00);
    assert_eq!(field_of(dist.icfgr[2], 4), 0b11);
    assert_eq!(field_of(dist.icfgr[2], 6), 0b11);
}

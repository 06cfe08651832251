//! The generic interrupt controller, version 2.
use vstd::prelude::*;

verus! {

/// The distributor's registers.
pub struct GICD {
    pub ctl: u32,
    pub typer: u32,
    pub iid: u32,
    pub typer2: u32,
    pub status: u32,
    pub _res0: [u32; 0x3],
    pub _impl0: [u32; 0x8],
    pub set_spi_ns: u32,
    pub _res1: u32,
    pub clr_spi_ns: u32,
    pub _res2: u32,
    pub set_spi_s: u32,
    pub _res3: u32,
    pub clr_spi_s: u32,
    pub _res4: [u32; 0x9],
    pub igroup: [u32; 0x1F],
    pub is_enable: [u32; 0x20],
    pub ic_enable: [u32; 0x20],
    pub is_pend: [u32; 0x20],
    pub ic_pend: [u32; 0x20],
    pub is_active: [u32; 0x20],
    pub ic_active: [u32; 0x20],
    pub i_priority: [u32; 0xFF],
    pub _res5: u32,
    pub i_targets: [u32; 0xFF],
    pub _res6: u32,
    pub i_cfg: [u32; 0x40],
    pub i_grp_mod: [u32; 0x40],
    pub nasc: [u32; 0x40],
    pub sgi: u32,
    pub _res7: [u32; 0x3],
    pub c_pend_sgi: [u32; 0x4],
    pub s_pend_sgi: [u32; 0x4],
    pub _res8: [u32; 0x28],
    pub _impl2: [u32; 0x30],
    pub i_group_e: [u32; 0x40],
    pub is_enable_e: [u32; 0x40],
    pub ic_enable_e: [u32; 0x40],
    pub is_pend_e: [u32; 0x40],
    pub ic_pend_e: [u32; 0x40],
    pub is_active_e: [u32; 0x40],
    pub ic_active_e: [u32; 0x40],
    pub _res20: [u32; 0xE0],
    pub i_priority_e: [u32; 0xC0],
    pub _res21: [u32; 0x320],
    pub i_cfg_e: [u32; 0x40],
    pub _res22: [u32; 0xC0],
    pub i_grp_mod_e: [u32; 0x20],
    pub _res23: [u32; 0x60],
    pub nsac_e: [u32; 0x20],
    pub _res24: [u32; 0xAA0],
    pub route: [u32; 0x7B7],
    pub _res25: [u32; 0x9],
    pub route_e: [u32; 0x800],
    pub _res26: [u32; 0x800],
    pub _impl3: [u32; 0xFF4],
    pub _res27: [u32; 0xC],
}

/// The CPU interface's registers.
pub struct GICC {
    pub ctl: u32,
    pub pm: u32,
    pub bp: u32,
    pub ia: u32,
    pub eoi: u32,
    pub rp: u32,
    pub hppi: u32,
    pub abp: u32,
    pub aia: u32,
    pub aeoi: u32,
    pub ahppi: u32,
    pub status: u32,
    pub _res0: [u32; 0x3],
    pub _impl0: [u32; 0x24],
    pub ap: [u32; 0x4],
    pub nsap: [u32; 0x4],
    pub _res1: [u32; 0xF],
    pub iid: u32,
    pub di: u32,
}

/// A GICv2: the addresses of its distributor and CPU interface.
pub struct GICv2 {
    pub gicd: usize,
    pub gicc: usize,
}

impl GICv2 {
    /// The controller whose distributor and CPU interface are mapped at
    /// `gicd` and `gicc`.
    pub fn new(gicd: usize, gicc: usize) -> (r: Self)
        ensures
            r.gicd == gicd,
            r.gicc == gicc,
    {
        GICv2 { gicd, gicc }
    }
}

} // verus!

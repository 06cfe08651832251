//! Register block of the local APIC.
use vstd::prelude::*;

verus! {

pub struct Apic {
    pub _res0: [u32; 8],
    pub id: u32,
    pub _res1: [u32; 7],
    pub version: u32,
    pub _res2: [u32; 7],
    pub tp: u32,
    pub _res3: [u32; 7],
    pub ap: u32,
    pub _res4: [u32; 7],
    pub pp: u32,
    pub _res5: [u32; 7],
    pub eoi: u32,
    pub _res6: [u32; 7],
    pub rr: u32,
    pub _res7: [u32; 7],
    pub ld: u32,
    pub _res8: [u32; 7],
    pub df: u32,
    pub _res9: [u32; 7],
    pub spiv: u32,
    pub _res10: [u32; 7],
}

} // verus!

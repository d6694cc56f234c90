//! Fixed-layout UBX payloads: every field little-endian, in the order the
//! receiver sends them, so that a read and a write reproduce the bytes.
use vstd::prelude::*;

use crate::parse::{
    i16_bytes, i32_bytes, lemma_extend, read_i16, read_i32, read_i8, take_u16, take_u32, take_u8,
    u16_bytes, u32_bytes, write_all, write_i16, write_i32, write_u16, write_u32,
};

verus! {

/// NAV-CLOCK (0x01 0x22): receiver clock bias and drift.
#[derive(Debug, Clone, Copy)]
pub struct Clock {
    pub i_tow: u32,
    pub clk_b: i32,
    pub clk_d: i32,
    pub t_acc: u32,
    pub f_acc: u32,
}

impl Clock {
    #[verifier::opaque]
    pub open spec fn spec_payload(&self) -> Seq<u8> {
        u32_bytes(self.i_tow as nat)
            + i32_bytes(self.clk_b)
            + i32_bytes(self.clk_d)
            + u32_bytes(self.t_acc as nat)
            + u32_bytes(self.f_acc as nat)
    }

    /// Reads a payload of exactly 20 bytes.
    pub fn from_bytes(p: &[u8]) -> (r: Clock)
        requires
            p@.len() == 20,
        ensures
            r.spec_payload() == p@,
    {
        let i_tow = take_u32(p, 0);
        let clk_b = read_i32(p, 4);
        let clk_d = read_i32(p, 8);
        let t_acc = take_u32(p, 12);
        let f_acc = take_u32(p, 16);
        let r = Clock {
            i_tow,
            clk_b,
            clk_d,
            t_acc,
            f_acc,
        };
        proof {
            lemma_clock_bytes(r, p@);
        }
        r
    }

    /// Appends the 20-byte payload.
    pub fn write_bytes(&self, out: &mut Vec<u8>)
        ensures
            final(out)@ == old(out)@ + self.spec_payload(),
    {
        let mut buf: Vec<u8> = Vec::new();
        write_u32(self.i_tow, &mut buf);
        write_i32(self.clk_b, &mut buf);
        write_i32(self.clk_d, &mut buf);
        write_u32(self.t_acc, &mut buf);
        write_u32(self.f_acc, &mut buf);
        proof {
            reveal(Clock::spec_payload);
            assert(buf@ =~= self.spec_payload());
        }
        write_all(buf.as_slice(), out);
    }
}

proof fn lemma_clock_bytes(r: Clock, p: Seq<u8>)
    requires
        p.len() == 20,
        u32_bytes(r.i_tow as nat) == p.subrange(0, 4),
        i32_bytes(r.clk_b) == p.subrange(4, 8),
        i32_bytes(r.clk_d) == p.subrange(8, 12),
        u32_bytes(r.t_acc as nat) == p.subrange(12, 16),
        u32_bytes(r.f_acc as nat) == p.subrange(16, 20),
    ensures
        r.spec_payload() == p,
{
    reveal(Clock::spec_payload);
    assert(p.subrange(0, 0) =~= Seq::<u8>::empty());
    lemma_extend(p, Seq::empty(), u32_bytes(r.i_tow as nat), 0, 4);
    assert(Seq::<u8>::empty() + u32_bytes(r.i_tow as nat) =~= u32_bytes(r.i_tow as nat));
    lemma_extend(p, u32_bytes(r.i_tow as nat), i32_bytes(r.clk_b), 4, 8);
    lemma_extend(p, u32_bytes(r.i_tow as nat) + i32_bytes(r.clk_b), i32_bytes(r.clk_d), 8, 12);
    lemma_extend(p, u32_bytes(r.i_tow as nat) + i32_bytes(r.clk_b) + i32_bytes(r.clk_d), u32_bytes(r.t_acc as nat), 12, 16);
    lemma_extend(p, u32_bytes(r.i_tow as nat) + i32_bytes(r.clk_b) + i32_bytes(r.clk_d) + u32_bytes(r.t_acc as nat), u32_bytes(r.f_acc as nat), 16, 20);
    assert(p.subrange(0, 20) =~= p);
}

/// NAV-DOP (0x01 0x04): dilution of precision.
#[derive(Debug, Clone, Copy)]
pub struct Dop {
    pub i_tow: u32,
    pub g_dop: u16,
    pub p_dop: u16,
    pub t_dop: u16,
    pub v_dop: u16,
    pub h_dop: u16,
    pub n_dop: u16,
    pub e_dop: u16,
}

impl Dop {
    #[verifier::opaque]
    pub open spec fn spec_payload(&self) -> Seq<u8> {
        u32_bytes(self.i_tow as nat)
            + u16_bytes(self.g_dop as nat)
            + u16_bytes(self.p_dop as nat)
            + u16_bytes(self.t_dop as nat)
            + u16_bytes(self.v_dop as nat)
            + u16_bytes(self.h_dop as nat)
            + u16_bytes(self.n_dop as nat)
            + u16_bytes(self.e_dop as nat)
    }

    /// Reads a payload of exactly 18 bytes.
    pub fn from_bytes(p: &[u8]) -> (r: Dop)
        requires
            p@.len() == 18,
        ensures
            r.spec_payload() == p@,
    {
        let i_tow = take_u32(p, 0);
        let g_dop = take_u16(p, 4);
        let p_dop = take_u16(p, 6);
        let t_dop = take_u16(p, 8);
        let v_dop = take_u16(p, 10);
        let h_dop = take_u16(p, 12);
        let n_dop = take_u16(p, 14);
        let e_dop = take_u16(p, 16);
        let r = Dop {
            i_tow,
            g_dop,
            p_dop,
            t_dop,
            v_dop,
            h_dop,
            n_dop,
            e_dop,
        };
        proof {
            lemma_dop_bytes(r, p@);
        }
        r
    }

    /// Appends the 18-byte payload.
    pub fn write_bytes(&self, out: &mut Vec<u8>)
        ensures
            final(out)@ == old(out)@ + self.spec_payload(),
    {
        let mut buf: Vec<u8> = Vec::new();
        write_u32(self.i_tow, &mut buf);
        write_u16(self.g_dop, &mut buf);
        write_u16(self.p_dop, &mut buf);
        write_u16(self.t_dop, &mut buf);
        write_u16(self.v_dop, &mut buf);
        write_u16(self.h_dop, &mut buf);
        write_u16(self.n_dop, &mut buf);
        write_u16(self.e_dop, &mut buf);
        proof {
            reveal(Dop::spec_payload);
            assert(buf@ =~= self.spec_payload());
        }
        write_all(buf.as_slice(), out);
    }
}

proof fn lemma_dop_bytes(r: Dop, p: Seq<u8>)
    requires
        p.len() == 18,
        u32_bytes(r.i_tow as nat) == p.subrange(0, 4),
        u16_bytes(r.g_dop as nat) == p.subrange(4, 6),
        u16_bytes(r.p_dop as nat) == p.subrange(6, 8),
        u16_bytes(r.t_dop as nat) == p.subrange(8, 10),
        u16_bytes(r.v_dop as nat) == p.subrange(10, 12),
        u16_bytes(r.h_dop as nat) == p.subrange(12, 14),
        u16_bytes(r.n_dop as nat) == p.subrange(14, 16),
        u16_bytes(r.e_dop as nat) == p.subrange(16, 18),
    ensures
        r.spec_payload() == p,
{
    reveal(Dop::spec_payload);
    assert(p.subrange(0, 0) =~= Seq::<u8>::empty());
    lemma_extend(p, Seq::empty(), u32_bytes(r.i_tow as nat), 0, 4);
    assert(Seq::<u8>::empty() + u32_bytes(r.i_tow as nat) =~= u32_bytes(r.i_tow as nat));
    lemma_extend(p, u32_bytes(r.i_tow as nat), u16_bytes(r.g_dop as nat), 4, 6);
    lemma_extend(p, u32_bytes(r.i_tow as nat) + u16_bytes(r.g_dop as nat), u16_bytes(r.p_dop as nat), 6, 8);
    lemma_extend(p, u32_bytes(r.i_tow as nat) + u16_bytes(r.g_dop as nat) + u16_bytes(r.p_dop as nat), u16_bytes(r.t_dop as nat), 8, 10);
    lemma_extend(p, u32_bytes(r.i_tow as nat) + u16_bytes(r.g_dop as nat) + u16_bytes(r.p_dop as nat) + u16_bytes(r.t_dop as nat), u16_bytes(r.v_dop as nat), 10, 12);
    lemma_extend(p, u32_bytes(r.i_tow as nat) + u16_bytes(r.g_dop as nat) + u16_bytes(r.p_dop as nat) + u16_bytes(r.t_dop as nat) + u16_bytes(r.v_dop as nat), u16_bytes(r.h_dop as nat), 12, 14);
    lemma_extend(p, u32_bytes(r.i_tow as nat) + u16_bytes(r.g_dop as nat) + u16_bytes(r.p_dop as nat) + u16_bytes(r.t_dop as nat) + u16_bytes(r.v_dop as nat) + u16_bytes(r.h_dop as nat), u16_bytes(r.n_dop as nat), 14, 16);
    lemma_extend(p, u32_bytes(r.i_tow as nat) + u16_bytes(r.g_dop as nat) + u16_bytes(r.p_dop as nat) + u16_bytes(r.t_dop as nat) + u16_bytes(r.v_dop as nat) + u16_bytes(r.h_dop as nat) + u16_bytes(r.n_dop as nat), u16_bytes(r.e_dop as nat), 16, 18);
    assert(p.subrange(0, 18) =~= p);
}

/// NAV-EOE (0x01 0x61): end of the navigation epoch.
#[derive(Debug, Clone, Copy)]
pub struct Eoe {
    pub i_tow: u32,
}

impl Eoe {
    #[verifier::opaque]
    pub open spec fn spec_payload(&self) -> Seq<u8> {
        u32_bytes(self.i_tow as nat)
    }

    /// Reads a payload of exactly 4 bytes.
    pub fn from_bytes(p: &[u8]) -> (r: Eoe)
        requires
            p@.len() == 4,
        ensures
            r.spec_payload() == p@,
    {
        let i_tow = take_u32(p, 0);
        let r = Eoe {
            i_tow,
        };
        proof {
            lemma_eoe_bytes(r, p@);
        }
        r
    }

    /// Appends the 4-byte payload.
    pub fn write_bytes(&self, out: &mut Vec<u8>)
        ensures
            final(out)@ == old(out)@ + self.spec_payload(),
    {
        let mut buf: Vec<u8> = Vec::new();
        write_u32(self.i_tow, &mut buf);
        proof {
            reveal(Eoe::spec_payload);
            assert(buf@ =~= self.spec_payload());
        }
        write_all(buf.as_slice(), out);
    }
}

proof fn lemma_eoe_bytes(r: Eoe, p: Seq<u8>)
    requires
        p.len() == 4,
        u32_bytes(r.i_tow as nat) == p.subrange(0, 4),
    ensures
        r.spec_payload() == p,
{
    reveal(Eoe::spec_payload);
    assert(p.subrange(0, 0) =~= Seq::<u8>::empty());
    lemma_extend(p, Seq::empty(), u32_bytes(r.i_tow as nat), 0, 4);
    assert(Seq::<u8>::empty() + u32_bytes(r.i_tow as nat) =~= u32_bytes(r.i_tow as nat));
    assert(p.subrange(0, 4) =~= p);
}

/// NAV-HPPOSECEF (0x01 0x13): high precision ECEF position.
#[derive(Debug, Clone, Copy)]
pub struct Hpposecef {
    pub version: u8,
    pub res1: [u8; 3],
    pub i_tow: u32,
    pub ecef_x: i32,
    pub ecef_y: i32,
    pub ecef_z: i32,
    pub ecef_x_hp: i8,
    pub ecef_y_hp: i8,
    pub ecef_z_hp: i8,
    pub res2: u8,
    pub p_acc: i32,
}

impl Hpposecef {
    #[verifier::opaque]
    pub open spec fn spec_payload(&self) -> Seq<u8> {
        seq![self.version]
            + seq![self.res1@[0]]
            + seq![self.res1@[1]]
            + seq![self.res1@[2]]
            + u32_bytes(self.i_tow as nat)
            + i32_bytes(self.ecef_x)
            + i32_bytes(self.ecef_y)
            + i32_bytes(self.ecef_z)
            + seq![self.ecef_x_hp as u8]
            + seq![self.ecef_y_hp as u8]
            + seq![self.ecef_z_hp as u8]
            + seq![self.res2]
            + i32_bytes(self.p_acc)
    }

    /// Reads a payload of exactly 28 bytes.
    pub fn from_bytes(p: &[u8]) -> (r: Hpposecef)
        requires
            p@.len() == 28,
        ensures
            r.spec_payload() == p@,
    {
        let version = take_u8(p, 0);
        let res1_0 = take_u8(p, 1);
        let res1_1 = take_u8(p, 2);
        let res1_2 = take_u8(p, 3);
        let i_tow = take_u32(p, 4);
        let ecef_x = read_i32(p, 8);
        let ecef_y = read_i32(p, 12);
        let ecef_z = read_i32(p, 16);
        let ecef_x_hp = read_i8(p, 20);
        let ecef_y_hp = read_i8(p, 21);
        let ecef_z_hp = read_i8(p, 22);
        let res2 = take_u8(p, 23);
        let p_acc = read_i32(p, 24);
        let r = Hpposecef {
            version,
            res1: [res1_0, res1_1, res1_2],
            i_tow,
            ecef_x,
            ecef_y,
            ecef_z,
            ecef_x_hp,
            ecef_y_hp,
            ecef_z_hp,
            res2,
            p_acc,
        };
        proof {
            lemma_hpposecef_bytes(r, p@);
        }
        r
    }

    /// Appends the 28-byte payload.
    pub fn write_bytes(&self, out: &mut Vec<u8>)
        ensures
            final(out)@ == old(out)@ + self.spec_payload(),
    {
        let mut buf: Vec<u8> = Vec::new();
        buf.push(self.version);
        buf.push(self.res1[0]);
        buf.push(self.res1[1]);
        buf.push(self.res1[2]);
        write_u32(self.i_tow, &mut buf);
        write_i32(self.ecef_x, &mut buf);
        write_i32(self.ecef_y, &mut buf);
        write_i32(self.ecef_z, &mut buf);
        buf.push(self.ecef_x_hp as u8);
        buf.push(self.ecef_y_hp as u8);
        buf.push(self.ecef_z_hp as u8);
        buf.push(self.res2);
        write_i32(self.p_acc, &mut buf);
        proof {
            reveal(Hpposecef::spec_payload);
            assert(buf@ =~= self.spec_payload());
        }
        write_all(buf.as_slice(), out);
    }
}

proof fn lemma_hpposecef_bytes(r: Hpposecef, p: Seq<u8>)
    requires
        p.len() == 28,
        seq![r.version] == p.subrange(0, 1),
        seq![r.res1@[0]] == p.subrange(1, 2),
        seq![r.res1@[1]] == p.subrange(2, 3),
        seq![r.res1@[2]] == p.subrange(3, 4),
        u32_bytes(r.i_tow as nat) == p.subrange(4, 8),
        i32_bytes(r.ecef_x) == p.subrange(8, 12),
        i32_bytes(r.ecef_y) == p.subrange(12, 16),
        i32_bytes(r.ecef_z) == p.subrange(16, 20),
        seq![r.ecef_x_hp as u8] == p.subrange(20, 21),
        seq![r.ecef_y_hp as u8] == p.subrange(21, 22),
        seq![r.ecef_z_hp as u8] == p.subrange(22, 23),
        seq![r.res2] == p.subrange(23, 24),
        i32_bytes(r.p_acc) == p.subrange(24, 28),
    ensures
        r.spec_payload() == p,
{
    reveal(Hpposecef::spec_payload);
    assert(p.subrange(0, 0) =~= Seq::<u8>::empty());
    lemma_extend(p, Seq::empty(), seq![r.version], 0, 1);
    assert(Seq::<u8>::empty() + seq![r.version] =~= seq![r.version]);
    lemma_extend(p, seq![r.version], seq![r.res1@[0]], 1, 2);
    lemma_extend(p, seq![r.version] + seq![r.res1@[0]], seq![r.res1@[1]], 2, 3);
    lemma_extend(p, seq![r.version] + seq![r.res1@[0]] + seq![r.res1@[1]], seq![r.res1@[2]], 3, 4);
    lemma_extend(p, seq![r.version] + seq![r.res1@[0]] + seq![r.res1@[1]] + seq![r.res1@[2]], u32_bytes(r.i_tow as nat), 4, 8);
    lemma_extend(p, seq![r.version] + seq![r.res1@[0]] + seq![r.res1@[1]] + seq![r.res1@[2]] + u32_bytes(r.i_tow as nat), i32_bytes(r.ecef_x), 8, 12);
    lemma_extend(p, seq![r.version] + seq![r.res1@[0]] + seq![r.res1@[1]] + seq![r.res1@[2]] + u32_bytes(r.i_tow as nat) + i32_bytes(r.ecef_x), i32_bytes(r.ecef_y), 12, 16);
    lemma_extend(p, seq![r.version] + seq![r.res1@[0]] + seq![r.res1@[1]] + seq![r.res1@[2]] + u32_bytes(r.i_tow as nat) + i32_bytes(r.ecef_x) + i32_bytes(r.ecef_y), i32_bytes(r.ecef_z), 16, 20);
    lemma_extend(p, seq![r.version] + seq![r.res1@[0]] + seq![r.res1@[1]] + seq![r.res1@[2]] + u32_bytes(r.i_tow as nat) + i32_bytes(r.ecef_x) + i32_bytes(r.ecef_y) + i32_bytes(r.ecef_z), seq![r.ecef_x_hp as u8], 20, 21);
    lemma_extend(p, seq![r.version] + seq![r.res1@[0]] + seq![r.res1@[1]] + seq![r.res1@[2]] + u32_bytes(r.i_tow as nat) + i32_bytes(r.ecef_x) + i32_bytes(r.ecef_y) + i32_bytes(r.ecef_z) + seq![r.ecef_x_hp as u8], seq![r.ecef_y_hp as u8], 21, 22);
    lemma_extend(p, seq![r.version] + seq![r.res1@[0]] + seq![r.res1@[1]] + seq![r.res1@[2]] + u32_bytes(r.i_tow as nat) + i32_bytes(r.ecef_x) + i32_bytes(r.ecef_y) + i32_bytes(r.ecef_z) + seq![r.ecef_x_hp as u8] + seq![r.ecef_y_hp as u8], seq![r.ecef_z_hp as u8], 22, 23);
    lemma_extend(p, seq![r.version] + seq![r.res1@[0]] + seq![r.res1@[1]] + seq![r.res1@[2]] + u32_bytes(r.i_tow as nat) + i32_bytes(r.ecef_x) + i32_bytes(r.ecef_y) + i32_bytes(r.ecef_z) + seq![r.ecef_x_hp as u8] + seq![r.ecef_y_hp as u8] + seq![r.ecef_z_hp as u8], seq![r.res2], 23, 24);
    lemma_extend(p, seq![r.version] + seq![r.res1@[0]] + seq![r.res1@[1]] + seq![r.res1@[2]] + u32_bytes(r.i_tow as nat) + i32_bytes(r.ecef_x) + i32_bytes(r.ecef_y) + i32_bytes(r.ecef_z) + seq![r.ecef_x_hp as u8] + seq![r.ecef_y_hp as u8] + seq![r.ecef_z_hp as u8] + seq![r.res2], i32_bytes(r.p_acc), 24, 28);
    assert(p.subrange(0, 28) =~= p);
}

/// NAV-HPPOSLLH (0x01 0x14): high precision geodetic position.
#[derive(Debug, Clone, Copy)]
pub struct Hpposllh {
    pub version: u8,
    pub res1: [u8; 3],
    pub i_tow: u32,
    pub lon: i32,
    pub lat: i32,
    pub height: i32,
    pub h_msl: i32,
    pub lon_hp: i8,
    pub lat_hp: i8,
    pub height_hp: i8,
    pub h_msl_hp: i8,
    pub h_acc: i32,
    pub v_acc: i32,
}

impl Hpposllh {
    #[verifier::opaque]
    pub open spec fn spec_payload(&self) -> Seq<u8> {
        seq![self.version]
            + seq![self.res1@[0]]
            + seq![self.res1@[1]]
            + seq![self.res1@[2]]
            + u32_bytes(self.i_tow as nat)
            + i32_bytes(self.lon)
            + i32_bytes(self.lat)
            + i32_bytes(self.height)
            + i32_bytes(self.h_msl)
            + seq![self.lon_hp as u8]
            + seq![self.lat_hp as u8]
            + seq![self.height_hp as u8]
            + seq![self.h_msl_hp as u8]
            + i32_bytes(self.h_acc)
            + i32_bytes(self.v_acc)
    }

    /// Reads a payload of exactly 36 bytes.
    pub fn from_bytes(p: &[u8]) -> (r: Hpposllh)
        requires
            p@.len() == 36,
        ensures
            r.spec_payload() == p@,
    {
        let version = take_u8(p, 0);
        let res1_0 = take_u8(p, 1);
        let res1_1 = take_u8(p, 2);
        let res1_2 = take_u8(p, 3);
        let i_tow = take_u32(p, 4);
        let lon = read_i32(p, 8);
        let lat = read_i32(p, 12);
        let height = read_i32(p, 16);
        let h_msl = read_i32(p, 20);
        let lon_hp = read_i8(p, 24);
        let lat_hp = read_i8(p, 25);
        let height_hp = read_i8(p, 26);
        let h_msl_hp = read_i8(p, 27);
        let h_acc = read_i32(p, 28);
        let v_acc = read_i32(p, 32);
        let r = Hpposllh {
            version,
            res1: [res1_0, res1_1, res1_2],
            i_tow,
            lon,
            lat,
            height,
            h_msl,
            lon_hp,
            lat_hp,
            height_hp,
            h_msl_hp,
            h_acc,
            v_acc,
        };
        proof {
            lemma_hpposllh_bytes(r, p@);
        }
        r
    }

    /// Appends the 36-byte payload.
    pub fn write_bytes(&self, out: &mut Vec<u8>)
        ensures
            final(out)@ == old(out)@ + self.spec_payload(),
    {
        let mut buf: Vec<u8> = Vec::new();
        buf.push(self.version);
        buf.push(self.res1[0]);
        buf.push(self.res1[1]);
        buf.push(self.res1[2]);
        write_u32(self.i_tow, &mut buf);
        write_i32(self.lon, &mut buf);
        write_i32(self.lat, &mut buf);
        write_i32(self.height, &mut buf);
        write_i32(self.h_msl, &mut buf);
        buf.push(self.lon_hp as u8);
        buf.push(self.lat_hp as u8);
        buf.push(self.height_hp as u8);
        buf.push(self.h_msl_hp as u8);
        write_i32(self.h_acc, &mut buf);
        write_i32(self.v_acc, &mut buf);
        proof {
            reveal(Hpposllh::spec_payload);
            assert(buf@ =~= self.spec_payload());
        }
        write_all(buf.as_slice(), out);
    }
}

proof fn lemma_hpposllh_bytes(r: Hpposllh, p: Seq<u8>)
    requires
        p.len() == 36,
        seq![r.version] == p.subrange(0, 1),
        seq![r.res1@[0]] == p.subrange(1, 2),
        seq![r.res1@[1]] == p.subrange(2, 3),
        seq![r.res1@[2]] == p.subrange(3, 4),
        u32_bytes(r.i_tow as nat) == p.subrange(4, 8),
        i32_bytes(r.lon) == p.subrange(8, 12),
        i32_bytes(r.lat) == p.subrange(12, 16),
        i32_bytes(r.height) == p.subrange(16, 20),
        i32_bytes(r.h_msl) == p.subrange(20, 24),
        seq![r.lon_hp as u8] == p.subrange(24, 25),
        seq![r.lat_hp as u8] == p.subrange(25, 26),
        seq![r.height_hp as u8] == p.subrange(26, 27),
        seq![r.h_msl_hp as u8] == p.subrange(27, 28),
        i32_bytes(r.h_acc) == p.subrange(28, 32),
        i32_bytes(r.v_acc) == p.subrange(32, 36),
    ensures
        r.spec_payload() == p,
{
    reveal(Hpposllh::spec_payload);
    assert(p.subrange(0, 0) =~= Seq::<u8>::empty());
    lemma_extend(p, Seq::empty(), seq![r.version], 0, 1);
    assert(Seq::<u8>::empty() + seq![r.version] =~= seq![r.version]);
    lemma_extend(p, seq![r.version], seq![r.res1@[0]], 1, 2);
    lemma_extend(p, seq![r.version] + seq![r.res1@[0]], seq![r.res1@[1]], 2, 3);
    lemma_extend(p, seq![r.version] + seq![r.res1@[0]] + seq![r.res1@[1]], seq![r.res1@[2]], 3, 4);
    lemma_extend(p, seq![r.version] + seq![r.res1@[0]] + seq![r.res1@[1]] + seq![r.res1@[2]], u32_bytes(r.i_tow as nat), 4, 8);
    lemma_extend(p, seq![r.version] + seq![r.res1@[0]] + seq![r.res1@[1]] + seq![r.res1@[2]] + u32_bytes(r.i_tow as nat), i32_bytes(r.lon), 8, 12);
    lemma_extend(p, seq![r.version] + seq![r.res1@[0]] + seq![r.res1@[1]] + seq![r.res1@[2]] + u32_bytes(r.i_tow as nat) + i32_bytes(r.lon), i32_bytes(r.lat), 12, 16);
    lemma_extend(p, seq![r.version] + seq![r.res1@[0]] + seq![r.res1@[1]] + seq![r.res1@[2]] + u32_bytes(r.i_tow as nat) + i32_bytes(r.lon) + i32_bytes(r.lat), i32_bytes(r.height), 16, 20);
    lemma_extend(p, seq![r.version] + seq![r.res1@[0]] + seq![r.res1@[1]] + seq![r.res1@[2]] + u32_bytes(r.i_tow as nat) + i32_bytes(r.lon) + i32_bytes(r.lat) + i32_bytes(r.height), i32_bytes(r.h_msl), 20, 24);
    lemma_extend(p, seq![r.version] + seq![r.res1@[0]] + seq![r.res1@[1]] + seq![r.res1@[2]] + u32_bytes(r.i_tow as nat) + i32_bytes(r.lon) + i32_bytes(r.lat) + i32_bytes(r.height) + i32_bytes(r.h_msl), seq![r.lon_hp as u8], 24, 25);
    lemma_extend(p, seq![r.version] + seq![r.res1@[0]] + seq![r.res1@[1]] + seq![r.res1@[2]] + u32_bytes(r.i_tow as nat) + i32_bytes(r.lon) + i32_bytes(r.lat) + i32_bytes(r.height) + i32_bytes(r.h_msl) + seq![r.lon_hp as u8], seq![r.lat_hp as u8], 25, 26);
    lemma_extend(p, seq![r.version] + seq![r.res1@[0]] + seq![r.res1@[1]] + seq![r.res1@[2]] + u32_bytes(r.i_tow as nat) + i32_bytes(r.lon) + i32_bytes(r.lat) + i32_bytes(r.height) + i32_bytes(r.h_msl) + seq![r.lon_hp as u8] + seq![r.lat_hp as u8], seq![r.height_hp as u8], 26, 27);
    lemma_extend(p, seq![r.version] + seq![r.res1@[0]] + seq![r.res1@[1]] + seq![r.res1@[2]] + u32_bytes(r.i_tow as nat) + i32_bytes(r.lon) + i32_bytes(r.lat) + i32_bytes(r.height) + i32_bytes(r.h_msl) + seq![r.lon_hp as u8] + seq![r.lat_hp as u8] + seq![r.height_hp as u8], seq![r.h_msl_hp as u8], 27, 28);
    lemma_extend(p, seq![r.version] + seq![r.res1@[0]] + seq![r.res1@[1]] + seq![r.res1@[2]] + u32_bytes(r.i_tow as nat) + i32_bytes(r.lon) + i32_bytes(r.lat) + i32_bytes(r.height) + i32_bytes(r.h_msl) + seq![r.lon_hp as u8] + seq![r.lat_hp as u8] + seq![r.height_hp as u8] + seq![r.h_msl_hp as u8], i32_bytes(r.h_acc), 28, 32);
    lemma_extend(p, seq![r.version] + seq![r.res1@[0]] + seq![r.res1@[1]] + seq![r.res1@[2]] + u32_bytes(r.i_tow as nat) + i32_bytes(r.lon) + i32_bytes(r.lat) + i32_bytes(r.height) + i32_bytes(r.h_msl) + seq![r.lon_hp as u8] + seq![r.lat_hp as u8] + seq![r.height_hp as u8] + seq![r.h_msl_hp as u8] + i32_bytes(r.h_acc), i32_bytes(r.v_acc), 32, 36);
    assert(p.subrange(0, 36) =~= p);
}

/// NAV-ODO (0x01 0x09): odometer.
#[derive(Debug, Clone, Copy)]
pub struct Odo {
    pub version: u8,
    pub res1: [u8; 3],
    pub i_tow: u32,
    pub distance: u32,
    pub total_distance: u32,
    pub distance_std: u32,
}

impl Odo {
    #[verifier::opaque]
    pub open spec fn spec_payload(&self) -> Seq<u8> {
        seq![self.version]
            + seq![self.res1@[0]]
            + seq![self.res1@[1]]
            + seq![self.res1@[2]]
            + u32_bytes(self.i_tow as nat)
            + u32_bytes(self.distance as nat)
            + u32_bytes(self.total_distance as nat)
            + u32_bytes(self.distance_std as nat)
    }

    /// Reads a payload of exactly 20 bytes.
    pub fn from_bytes(p: &[u8]) -> (r: Odo)
        requires
            p@.len() == 20,
        ensures
            r.spec_payload() == p@,
    {
        let version = take_u8(p, 0);
        let res1_0 = take_u8(p, 1);
        let res1_1 = take_u8(p, 2);
        let res1_2 = take_u8(p, 3);
        let i_tow = take_u32(p, 4);
        let distance = take_u32(p, 8);
        let total_distance = take_u32(p, 12);
        let distance_std = take_u32(p, 16);
        let r = Odo {
            version,
            res1: [res1_0, res1_1, res1_2],
            i_tow,
            distance,
            total_distance,
            distance_std,
        };
        proof {
            lemma_odo_bytes(r, p@);
        }
        r
    }

    /// Appends the 20-byte payload.
    pub fn write_bytes(&self, out: &mut Vec<u8>)
        ensures
            final(out)@ == old(out)@ + self.spec_payload(),
    {
        let mut buf: Vec<u8> = Vec::new();
        buf.push(self.version);
        buf.push(self.res1[0]);
        buf.push(self.res1[1]);
        buf.push(self.res1[2]);
        write_u32(self.i_tow, &mut buf);
        write_u32(self.distance, &mut buf);
        write_u32(self.total_distance, &mut buf);
        write_u32(self.distance_std, &mut buf);
        proof {
            reveal(Odo::spec_payload);
            assert(buf@ =~= self.spec_payload());
        }
        write_all(buf.as_slice(), out);
    }
}

proof fn lemma_odo_bytes(r: Odo, p: Seq<u8>)
    requires
        p.len() == 20,
        seq![r.version] == p.subrange(0, 1),
        seq![r.res1@[0]] == p.subrange(1, 2),
        seq![r.res1@[1]] == p.subrange(2, 3),
        seq![r.res1@[2]] == p.subrange(3, 4),
        u32_bytes(r.i_tow as nat) == p.subrange(4, 8),
        u32_bytes(r.distance as nat) == p.subrange(8, 12),
        u32_bytes(r.total_distance as nat) == p.subrange(12, 16),
        u32_bytes(r.distance_std as nat) == p.subrange(16, 20),
    ensures
        r.spec_payload() == p,
{
    reveal(Odo::spec_payload);
    assert(p.subrange(0, 0) =~= Seq::<u8>::empty());
    lemma_extend(p, Seq::empty(), seq![r.version], 0, 1);
    assert(Seq::<u8>::empty() + seq![r.version] =~= seq![r.version]);
    lemma_extend(p, seq![r.version], seq![r.res1@[0]], 1, 2);
    lemma_extend(p, seq![r.version] + seq![r.res1@[0]], seq![r.res1@[1]], 2, 3);
    lemma_extend(p, seq![r.version] + seq![r.res1@[0]] + seq![r.res1@[1]], seq![r.res1@[2]], 3, 4);
    lemma_extend(p, seq![r.version] + seq![r.res1@[0]] + seq![r.res1@[1]] + seq![r.res1@[2]], u32_bytes(r.i_tow as nat), 4, 8);
    lemma_extend(p, seq![r.version] + seq![r.res1@[0]] + seq![r.res1@[1]] + seq![r.res1@[2]] + u32_bytes(r.i_tow as nat), u32_bytes(r.distance as nat), 8, 12);
    lemma_extend(p, seq![r.version] + seq![r.res1@[0]] + seq![r.res1@[1]] + seq![r.res1@[2]] + u32_bytes(r.i_tow as nat) + u32_bytes(r.distance as nat), u32_bytes(r.total_distance as nat), 12, 16);
    lemma_extend(p, seq![r.version] + seq![r.res1@[0]] + seq![r.res1@[1]] + seq![r.res1@[2]] + u32_bytes(r.i_tow as nat) + u32_bytes(r.distance as nat) + u32_bytes(r.total_distance as nat), u32_bytes(r.distance_std as nat), 16, 20);
    assert(p.subrange(0, 20) =~= p);
}

/// NAV-POSECEF (0x01 0x01): ECEF position.
#[derive(Debug, Clone, Copy)]
pub struct Posecef {
    pub i_tow: u32,
    pub ecef_x: i32,
    pub ecef_y: i32,
    pub ecef_z: i32,
    pub p_acc: u32,
}

impl Posecef {
    #[verifier::opaque]
    pub open spec fn spec_payload(&self) -> Seq<u8> {
        u32_bytes(self.i_tow as nat)
            + i32_bytes(self.ecef_x)
            + i32_bytes(self.ecef_y)
            + i32_bytes(self.ecef_z)
            + u32_bytes(self.p_acc as nat)
    }

    /// Reads a payload of exactly 20 bytes.
    pub fn from_bytes(p: &[u8]) -> (r: Posecef)
        requires
            p@.len() == 20,
        ensures
            r.spec_payload() == p@,
    {
        let i_tow = take_u32(p, 0);
        let ecef_x = read_i32(p, 4);
        let ecef_y = read_i32(p, 8);
        let ecef_z = read_i32(p, 12);
        let p_acc = take_u32(p, 16);
        let r = Posecef {
            i_tow,
            ecef_x,
            ecef_y,
            ecef_z,
            p_acc,
        };
        proof {
            lemma_posecef_bytes(r, p@);
        }
        r
    }

    /// Appends the 20-byte payload.
    pub fn write_bytes(&self, out: &mut Vec<u8>)
        ensures
            final(out)@ == old(out)@ + self.spec_payload(),
    {
        let mut buf: Vec<u8> = Vec::new();
        write_u32(self.i_tow, &mut buf);
        write_i32(self.ecef_x, &mut buf);
        write_i32(self.ecef_y, &mut buf);
        write_i32(self.ecef_z, &mut buf);
        write_u32(self.p_acc, &mut buf);
        proof {
            reveal(Posecef::spec_payload);
            assert(buf@ =~= self.spec_payload());
        }
        write_all(buf.as_slice(), out);
    }
}

proof fn lemma_posecef_bytes(r: Posecef, p: Seq<u8>)
    requires
        p.len() == 20,
        u32_bytes(r.i_tow as nat) == p.subrange(0, 4),
        i32_bytes(r.ecef_x) == p.subrange(4, 8),
        i32_bytes(r.ecef_y) == p.subrange(8, 12),
        i32_bytes(r.ecef_z) == p.subrange(12, 16),
        u32_bytes(r.p_acc as nat) == p.subrange(16, 20),
    ensures
        r.spec_payload() == p,
{
    reveal(Posecef::spec_payload);
    assert(p.subrange(0, 0) =~= Seq::<u8>::empty());
    lemma_extend(p, Seq::empty(), u32_bytes(r.i_tow as nat), 0, 4);
    assert(Seq::<u8>::empty() + u32_bytes(r.i_tow as nat) =~= u32_bytes(r.i_tow as nat));
    lemma_extend(p, u32_bytes(r.i_tow as nat), i32_bytes(r.ecef_x), 4, 8);
    lemma_extend(p, u32_bytes(r.i_tow as nat) + i32_bytes(r.ecef_x), i32_bytes(r.ecef_y), 8, 12);
    lemma_extend(p, u32_bytes(r.i_tow as nat) + i32_bytes(r.ecef_x) + i32_bytes(r.ecef_y), i32_bytes(r.ecef_z), 12, 16);
    lemma_extend(p, u32_bytes(r.i_tow as nat) + i32_bytes(r.ecef_x) + i32_bytes(r.ecef_y) + i32_bytes(r.ecef_z), u32_bytes(r.p_acc as nat), 16, 20);
    assert(p.subrange(0, 20) =~= p);
}

/// NAV-POSLLH (0x01 0x02): geodetic position.
#[derive(Debug, Clone, Copy)]
pub struct Posllh {
    pub i_tow: u32,
    pub lon: i32,
    pub lat: i32,
    pub height: i32,
    pub h_msl: i32,
    pub h_acc: u32,
    pub v_acc: u32,
}

impl Posllh {
    #[verifier::opaque]
    pub open spec fn spec_payload(&self) -> Seq<u8> {
        u32_bytes(self.i_tow as nat)
            + i32_bytes(self.lon)
            + i32_bytes(self.lat)
            + i32_bytes(self.height)
            + i32_bytes(self.h_msl)
            + u32_bytes(self.h_acc as nat)
            + u32_bytes(self.v_acc as nat)
    }

    /// Reads a payload of exactly 28 bytes.
    pub fn from_bytes(p: &[u8]) -> (r: Posllh)
        requires
            p@.len() == 28,
        ensures
            r.spec_payload() == p@,
    {
        let i_tow = take_u32(p, 0);
        let lon = read_i32(p, 4);
        let lat = read_i32(p, 8);
        let height = read_i32(p, 12);
        let h_msl = read_i32(p, 16);
        let h_acc = take_u32(p, 20);
        let v_acc = take_u32(p, 24);
        let r = Posllh {
            i_tow,
            lon,
            lat,
            height,
            h_msl,
            h_acc,
            v_acc,
        };
        proof {
            lemma_posllh_bytes(r, p@);
        }
        r
    }

    /// Appends the 28-byte payload.
    pub fn write_bytes(&self, out: &mut Vec<u8>)
        ensures
            final(out)@ == old(out)@ + self.spec_payload(),
    {
        let mut buf: Vec<u8> = Vec::new();
        write_u32(self.i_tow, &mut buf);
        write_i32(self.lon, &mut buf);
        write_i32(self.lat, &mut buf);
        write_i32(self.height, &mut buf);
        write_i32(self.h_msl, &mut buf);
        write_u32(self.h_acc, &mut buf);
        write_u32(self.v_acc, &mut buf);
        proof {
            reveal(Posllh::spec_payload);
            assert(buf@ =~= self.spec_payload());
        }
        write_all(buf.as_slice(), out);
    }
}

proof fn lemma_posllh_bytes(r: Posllh, p: Seq<u8>)
    requires
        p.len() == 28,
        u32_bytes(r.i_tow as nat) == p.subrange(0, 4),
        i32_bytes(r.lon) == p.subrange(4, 8),
        i32_bytes(r.lat) == p.subrange(8, 12),
        i32_bytes(r.height) == p.subrange(12, 16),
        i32_bytes(r.h_msl) == p.subrange(16, 20),
        u32_bytes(r.h_acc as nat) == p.subrange(20, 24),
        u32_bytes(r.v_acc as nat) == p.subrange(24, 28),
    ensures
        r.spec_payload() == p,
{
    reveal(Posllh::spec_payload);
    assert(p.subrange(0, 0) =~= Seq::<u8>::empty());
    lemma_extend(p, Seq::empty(), u32_bytes(r.i_tow as nat), 0, 4);
    assert(Seq::<u8>::empty() + u32_bytes(r.i_tow as nat) =~= u32_bytes(r.i_tow as nat));
    lemma_extend(p, u32_bytes(r.i_tow as nat), i32_bytes(r.lon), 4, 8);
    lemma_extend(p, u32_bytes(r.i_tow as nat) + i32_bytes(r.lon), i32_bytes(r.lat), 8, 12);
    lemma_extend(p, u32_bytes(r.i_tow as nat) + i32_bytes(r.lon) + i32_bytes(r.lat), i32_bytes(r.height), 12, 16);
    lemma_extend(p, u32_bytes(r.i_tow as nat) + i32_bytes(r.lon) + i32_bytes(r.lat) + i32_bytes(r.height), i32_bytes(r.h_msl), 16, 20);
    lemma_extend(p, u32_bytes(r.i_tow as nat) + i32_bytes(r.lon) + i32_bytes(r.lat) + i32_bytes(r.height) + i32_bytes(r.h_msl), u32_bytes(r.h_acc as nat), 20, 24);
    lemma_extend(p, u32_bytes(r.i_tow as nat) + i32_bytes(r.lon) + i32_bytes(r.lat) + i32_bytes(r.height) + i32_bytes(r.h_msl) + u32_bytes(r.h_acc as nat), u32_bytes(r.v_acc as nat), 24, 28);
    assert(p.subrange(0, 28) =~= p);
}

/// NAV-PVT (0x01 0x07): position, velocity and time. Every field is kept as
/// the receiver sent it; `fix_type`, `fix_status` and `valid_flags` read the
/// packed ones.
#[derive(Debug, Clone, Copy)]
pub struct Pvt {
    pub i_tow: u32,
    pub year: u16,
    pub month: u8,
    pub day: u8,
    pub hour: u8,
    pub min: u8,
    pub sec: u8,
    pub valid: u8,
    pub t_acc: u32,
    pub nano: i32,
    pub fix_type: u8,
    pub flags: u8,
    pub flags2: u8,
    pub numsv: u8,
    pub lon: i32,
    pub lat: i32,
    pub height: i32,
    pub height_sea: i32,
    pub h_acc: u32,
    pub v_acc: u32,
    pub vel_n: i32,
    pub vel_e: i32,
    pub vel_d: i32,
    pub g_speed: i32,
    pub heading_mot: i32,
    pub s_acc: u32,
    pub head_acc: u32,
    pub p_dop: u16,
    pub flags3: u8,
    pub res1: [u8; 5],
    pub head_veh: i32,
    pub mag_dec: i16,
    pub mag_acc: u16,
}

impl Pvt {
    #[verifier::opaque]
    pub open spec fn spec_payload(&self) -> Seq<u8> {
        u32_bytes(self.i_tow as nat)
            + u16_bytes(self.year as nat)
            + seq![self.month]
            + seq![self.day]
            + seq![self.hour]
            + seq![self.min]
            + seq![self.sec]
            + seq![self.valid]
            + u32_bytes(self.t_acc as nat)
            + i32_bytes(self.nano)
            + seq![self.fix_type]
            + seq![self.flags]
            + seq![self.flags2]
            + seq![self.numsv]
            + i32_bytes(self.lon)
            + i32_bytes(self.lat)
            + i32_bytes(self.height)
            + i32_bytes(self.height_sea)
            + u32_bytes(self.h_acc as nat)
            + u32_bytes(self.v_acc as nat)
            + i32_bytes(self.vel_n)
            + i32_bytes(self.vel_e)
            + i32_bytes(self.vel_d)
            + i32_bytes(self.g_speed)
            + i32_bytes(self.heading_mot)
            + u32_bytes(self.s_acc as nat)
            + u32_bytes(self.head_acc as nat)
            + u16_bytes(self.p_dop as nat)
            + seq![self.flags3]
            + seq![self.res1@[0]]
            + seq![self.res1@[1]]
            + seq![self.res1@[2]]
            + seq![self.res1@[3]]
            + seq![self.res1@[4]]
            + i32_bytes(self.head_veh)
            + i16_bytes(self.mag_dec)
            + u16_bytes(self.mag_acc as nat)
    }

    /// Reads a payload of exactly 92 bytes.
    pub fn from_bytes(p: &[u8]) -> (r: Pvt)
        requires
            p@.len() == 92,
        ensures
            r.spec_payload() == p@,
    {
        let i_tow = take_u32(p, 0);
        let year = take_u16(p, 4);
        let month = take_u8(p, 6);
        let day = take_u8(p, 7);
        let hour = take_u8(p, 8);
        let min = take_u8(p, 9);
        let sec = take_u8(p, 10);
        let valid = take_u8(p, 11);
        let t_acc = take_u32(p, 12);
        let nano = read_i32(p, 16);
        let fix_type = take_u8(p, 20);
        let flags = take_u8(p, 21);
        let flags2 = take_u8(p, 22);
        let numsv = take_u8(p, 23);
        let lon = read_i32(p, 24);
        let lat = read_i32(p, 28);
        let height = read_i32(p, 32);
        let height_sea = read_i32(p, 36);
        let h_acc = take_u32(p, 40);
        let v_acc = take_u32(p, 44);
        let vel_n = read_i32(p, 48);
        let vel_e = read_i32(p, 52);
        let vel_d = read_i32(p, 56);
        let g_speed = read_i32(p, 60);
        let heading_mot = read_i32(p, 64);
        let s_acc = take_u32(p, 68);
        let head_acc = take_u32(p, 72);
        let p_dop = take_u16(p, 76);
        let flags3 = take_u8(p, 78);
        let res1_0 = take_u8(p, 79);
        let res1_1 = take_u8(p, 80);
        let res1_2 = take_u8(p, 81);
        let res1_3 = take_u8(p, 82);
        let res1_4 = take_u8(p, 83);
        let head_veh = read_i32(p, 84);
        let mag_dec = read_i16(p, 88);
        let mag_acc = take_u16(p, 90);
        let r = Pvt {
            i_tow,
            year,
            month,
            day,
            hour,
            min,
            sec,
            valid,
            t_acc,
            nano,
            fix_type,
            flags,
            flags2,
            numsv,
            lon,
            lat,
            height,
            height_sea,
            h_acc,
            v_acc,
            vel_n,
            vel_e,
            vel_d,
            g_speed,
            heading_mot,
            s_acc,
            head_acc,
            p_dop,
            flags3,
            res1: [res1_0, res1_1, res1_2, res1_3, res1_4],
            head_veh,
            mag_dec,
            mag_acc,
        };
        proof {
            lemma_pvt_bytes(r, p@);
        }
        r
    }

    /// Appends the 92-byte payload.
    pub fn write_bytes(&self, out: &mut Vec<u8>)
        ensures
            final(out)@ == old(out)@ + self.spec_payload(),
    {
        let mut buf: Vec<u8> = Vec::new();
        write_u32(self.i_tow, &mut buf);
        write_u16(self.year, &mut buf);
        buf.push(self.month);
        buf.push(self.day);
        buf.push(self.hour);
        buf.push(self.min);
        buf.push(self.sec);
        buf.push(self.valid);
        write_u32(self.t_acc, &mut buf);
        write_i32(self.nano, &mut buf);
        buf.push(self.fix_type);
        buf.push(self.flags);
        buf.push(self.flags2);
        buf.push(self.numsv);
        write_i32(self.lon, &mut buf);
        write_i32(self.lat, &mut buf);
        write_i32(self.height, &mut buf);
        write_i32(self.height_sea, &mut buf);
        write_u32(self.h_acc, &mut buf);
        write_u32(self.v_acc, &mut buf);
        write_i32(self.vel_n, &mut buf);
        write_i32(self.vel_e, &mut buf);
        write_i32(self.vel_d, &mut buf);
        write_i32(self.g_speed, &mut buf);
        write_i32(self.heading_mot, &mut buf);
        write_u32(self.s_acc, &mut buf);
        write_u32(self.head_acc, &mut buf);
        write_u16(self.p_dop, &mut buf);
        buf.push(self.flags3);
        buf.push(self.res1[0]);
        buf.push(self.res1[1]);
        buf.push(self.res1[2]);
        buf.push(self.res1[3]);
        buf.push(self.res1[4]);
        write_i32(self.head_veh, &mut buf);
        write_i16(self.mag_dec, &mut buf);
        write_u16(self.mag_acc, &mut buf);
        proof {
            reveal(Pvt::spec_payload);
            assert(buf@ =~= self.spec_payload());
        }
        write_all(buf.as_slice(), out);
    }
}

proof fn lemma_pvt_bytes(r: Pvt, p: Seq<u8>)
    requires
        p.len() == 92,
        u32_bytes(r.i_tow as nat) == p.subrange(0, 4),
        u16_bytes(r.year as nat) == p.subrange(4, 6),
        seq![r.month] == p.subrange(6, 7),
        seq![r.day] == p.subrange(7, 8),
        seq![r.hour] == p.subrange(8, 9),
        seq![r.min] == p.subrange(9, 10),
        seq![r.sec] == p.subrange(10, 11),
        seq![r.valid] == p.subrange(11, 12),
        u32_bytes(r.t_acc as nat) == p.subrange(12, 16),
        i32_bytes(r.nano) == p.subrange(16, 20),
        seq![r.fix_type] == p.subrange(20, 21),
        seq![r.flags] == p.subrange(21, 22),
        seq![r.flags2] == p.subrange(22, 23),
        seq![r.numsv] == p.subrange(23, 24),
        i32_bytes(r.lon) == p.subrange(24, 28),
        i32_bytes(r.lat) == p.subrange(28, 32),
        i32_bytes(r.height) == p.subrange(32, 36),
        i32_bytes(r.height_sea) == p.subrange(36, 40),
        u32_bytes(r.h_acc as nat) == p.subrange(40, 44),
        u32_bytes(r.v_acc as nat) == p.subrange(44, 48),
        i32_bytes(r.vel_n) == p.subrange(48, 52),
        i32_bytes(r.vel_e) == p.subrange(52, 56),
        i32_bytes(r.vel_d) == p.subrange(56, 60),
        i32_bytes(r.g_speed) == p.subrange(60, 64),
        i32_bytes(r.heading_mot) == p.subrange(64, 68),
        u32_bytes(r.s_acc as nat) == p.subrange(68, 72),
        u32_bytes(r.head_acc as nat) == p.subrange(72, 76),
        u16_bytes(r.p_dop as nat) == p.subrange(76, 78),
        seq![r.flags3] == p.subrange(78, 79),
        seq![r.res1@[0]] == p.subrange(79, 80),
        seq![r.res1@[1]] == p.subrange(80, 81),
        seq![r.res1@[2]] == p.subrange(81, 82),
        seq![r.res1@[3]] == p.subrange(82, 83),
        seq![r.res1@[4]] == p.subrange(83, 84),
        i32_bytes(r.head_veh) == p.subrange(84, 88),
        i16_bytes(r.mag_dec) == p.subrange(88, 90),
        u16_bytes(r.mag_acc as nat) == p.subrange(90, 92),
    ensures
        r.spec_payload() == p,
{
    reveal(Pvt::spec_payload);
    assert(p.subrange(0, 0) =~= Seq::<u8>::empty());
    lemma_extend(p, Seq::empty(), u32_bytes(r.i_tow as nat), 0, 4);
    assert(Seq::<u8>::empty() + u32_bytes(r.i_tow as nat) =~= u32_bytes(r.i_tow as nat));
    lemma_extend(p, u32_bytes(r.i_tow as nat), u16_bytes(r.year as nat), 4, 6);
    lemma_extend(p, u32_bytes(r.i_tow as nat) + u16_bytes(r.year as nat), seq![r.month], 6, 7);
    lemma_extend(p, u32_bytes(r.i_tow as nat) + u16_bytes(r.year as nat) + seq![r.month], seq![r.day], 7, 8);
    lemma_extend(p, u32_bytes(r.i_tow as nat) + u16_bytes(r.year as nat) + seq![r.month] + seq![r.day], seq![r.hour], 8, 9);
    lemma_extend(p, u32_bytes(r.i_tow as nat) + u16_bytes(r.year as nat) + seq![r.month] + seq![r.day] + seq![r.hour], seq![r.min], 9, 10);
    lemma_extend(p, u32_bytes(r.i_tow as nat) + u16_bytes(r.year as nat) + seq![r.month] + seq![r.day] + seq![r.hour] + seq![r.min], seq![r.sec], 10, 11);
    lemma_extend(p, u32_bytes(r.i_tow as nat) + u16_bytes(r.year as nat) + seq![r.month] + seq![r.day] + seq![r.hour] + seq![r.min] + seq![r.sec], seq![r.valid], 11, 12);
    lemma_extend(p, u32_bytes(r.i_tow as nat) + u16_bytes(r.year as nat) + seq![r.month] + seq![r.day] + seq![r.hour] + seq![r.min] + seq![r.sec] + seq![r.valid], u32_bytes(r.t_acc as nat), 12, 16);
    lemma_extend(p, u32_bytes(r.i_tow as nat) + u16_bytes(r.year as nat) + seq![r.month] + seq![r.day] + seq![r.hour] + seq![r.min] + seq![r.sec] + seq![r.valid] + u32_bytes(r.t_acc as nat), i32_bytes(r.nano), 16, 20);
    lemma_extend(p, u32_bytes(r.i_tow as nat) + u16_bytes(r.year as nat) + seq![r.month] + seq![r.day] + seq![r.hour] + seq![r.min] + seq![r.sec] + seq![r.valid] + u32_bytes(r.t_acc as nat) + i32_bytes(r.nano), seq![r.fix_type], 20, 21);
    lemma_extend(p, u32_bytes(r.i_tow as nat) + u16_bytes(r.year as nat) + seq![r.month] + seq![r.day] + seq![r.hour] + seq![r.min] + seq![r.sec] + seq![r.valid] + u32_bytes(r.t_acc as nat) + i32_bytes(r.nano) + seq![r.fix_type], seq![r.flags], 21, 22);
    lemma_extend(p, u32_bytes(r.i_tow as nat) + u16_bytes(r.year as nat) + seq![r.month] + seq![r.day] + seq![r.hour] + seq![r.min] + seq![r.sec] + seq![r.valid] + u32_bytes(r.t_acc as nat) + i32_bytes(r.nano) + seq![r.fix_type] + seq![r.flags], seq![r.flags2], 22, 23);
    lemma_extend(p, u32_bytes(r.i_tow as nat) + u16_bytes(r.year as nat) + seq![r.month] + seq![r.day] + seq![r.hour] + seq![r.min] + seq![r.sec] + seq![r.valid] + u32_bytes(r.t_acc as nat) + i32_bytes(r.nano) + seq![r.fix_type] + seq![r.flags] + seq![r.flags2], seq![r.numsv], 23, 24);
    lemma_extend(p, u32_bytes(r.i_tow as nat) + u16_bytes(r.year as nat) + seq![r.month] + seq![r.day] + seq![r.hour] + seq![r.min] + seq![r.sec] + seq![r.valid] + u32_bytes(r.t_acc as nat) + i32_bytes(r.nano) + seq![r.fix_type] + seq![r.flags] + seq![r.flags2] + seq![r.numsv], i32_bytes(r.lon), 24, 28);
    lemma_extend(p, u32_bytes(r.i_tow as nat) + u16_bytes(r.year as nat) + seq![r.month] + seq![r.day] + seq![r.hour] + seq![r.min] + seq![r.sec] + seq![r.valid] + u32_bytes(r.t_acc as nat) + i32_bytes(r.nano) + seq![r.fix_type] + seq![r.flags] + seq![r.flags2] + seq![r.numsv] + i32_bytes(r.lon), i32_bytes(r.lat), 28, 32);
    lemma_extend(p, u32_bytes(r.i_tow as nat) + u16_bytes(r.year as nat) + seq![r.month] + seq![r.day] + seq![r.hour] + seq![r.min] + seq![r.sec] + seq![r.valid] + u32_bytes(r.t_acc as nat) + i32_bytes(r.nano) + seq![r.fix_type] + seq![r.flags] + seq![r.flags2] + seq![r.numsv] + i32_bytes(r.lon) + i32_bytes(r.lat), i32_bytes(r.height), 32, 36);
    lemma_extend(p, u32_bytes(r.i_tow as nat) + u16_bytes(r.year as nat) + seq![r.month] + seq![r.day] + seq![r.hour] + seq![r.min] + seq![r.sec] + seq![r.valid] + u32_bytes(r.t_acc as nat) + i32_bytes(r.nano) + seq![r.fix_type] + seq![r.flags] + seq![r.flags2] + seq![r.numsv] + i32_bytes(r.lon) + i32_bytes(r.lat) + i32_bytes(r.height), i32_bytes(r.height_sea), 36, 40);
    lemma_extend(p, u32_bytes(r.i_tow as nat) + u16_bytes(r.year as nat) + seq![r.month] + seq![r.day] + seq![r.hour] + seq![r.min] + seq![r.sec] + seq![r.valid] + u32_bytes(r.t_acc as nat) + i32_bytes(r.nano) + seq![r.fix_type] + seq![r.flags] + seq![r.flags2] + seq![r.numsv] + i32_bytes(r.lon) + i32_bytes(r.lat) + i32_bytes(r.height) + i32_bytes(r.height_sea), u32_bytes(r.h_acc as nat), 40, 44);
    lemma_extend(p, u32_bytes(r.i_tow as nat) + u16_bytes(r.year as nat) + seq![r.month] + seq![r.day] + seq![r.hour] + seq![r.min] + seq![r.sec] + seq![r.valid] + u32_bytes(r.t_acc as nat) + i32_bytes(r.nano) + seq![r.fix_type] + seq![r.flags] + seq![r.flags2] + seq![r.numsv] + i32_bytes(r.lon) + i32_bytes(r.lat) + i32_bytes(r.height) + i32_bytes(r.height_sea) + u32_bytes(r.h_acc as nat), u32_bytes(r.v_acc as nat), 44, 48);
    lemma_extend(p, u32_bytes(r.i_tow as nat) + u16_bytes(r.year as nat) + seq![r.month] + seq![r.day] + seq![r.hour] + seq![r.min] + seq![r.sec] + seq![r.valid] + u32_bytes(r.t_acc as nat) + i32_bytes(r.nano) + seq![r.fix_type] + seq![r.flags] + seq![r.flags2] + seq![r.numsv] + i32_bytes(r.lon) + i32_bytes(r.lat) + i32_bytes(r.height) + i32_bytes(r.height_sea) + u32_bytes(r.h_acc as nat) + u32_bytes(r.v_acc as nat), i32_bytes(r.vel_n), 48, 52);
    lemma_extend(p, u32_bytes(r.i_tow as nat) + u16_bytes(r.year as nat) + seq![r.month] + seq![r.day] + seq![r.hour] + seq![r.min] + seq![r.sec] + seq![r.valid] + u32_bytes(r.t_acc as nat) + i32_bytes(r.nano) + seq![r.fix_type] + seq![r.flags] + seq![r.flags2] + seq![r.numsv] + i32_bytes(r.lon) + i32_bytes(r.lat) + i32_bytes(r.height) + i32_bytes(r.height_sea) + u32_bytes(r.h_acc as nat) + u32_bytes(r.v_acc as nat) + i32_bytes(r.vel_n), i32_bytes(r.vel_e), 52, 56);
    lemma_extend(p, u32_bytes(r.i_tow as nat) + u16_bytes(r.year as nat) + seq![r.month] + seq![r.day] + seq![r.hour] + seq![r.min] + seq![r.sec] + seq![r.valid] + u32_bytes(r.t_acc as nat) + i32_bytes(r.nano) + seq![r.fix_type] + seq![r.flags] + seq![r.flags2] + seq![r.numsv] + i32_bytes(r.lon) + i32_bytes(r.lat) + i32_bytes(r.height) + i32_bytes(r.height_sea) + u32_bytes(r.h_acc as nat) + u32_bytes(r.v_acc as nat) + i32_bytes(r.vel_n) + i32_bytes(r.vel_e), i32_bytes(r.vel_d), 56, 60);
    lemma_extend(p, u32_bytes(r.i_tow as nat) + u16_bytes(r.year as nat) + seq![r.month] + seq![r.day] + seq![r.hour] + seq![r.min] + seq![r.sec] + seq![r.valid] + u32_bytes(r.t_acc as nat) + i32_bytes(r.nano) + seq![r.fix_type] + seq![r.flags] + seq![r.flags2] + seq![r.numsv] + i32_bytes(r.lon) + i32_bytes(r.lat) + i32_bytes(r.height) + i32_bytes(r.height_sea) + u32_bytes(r.h_acc as nat) + u32_bytes(r.v_acc as nat) + i32_bytes(r.vel_n) + i32_bytes(r.vel_e) + i32_bytes(r.vel_d), i32_bytes(r.g_speed), 60, 64);
    lemma_extend(p, u32_bytes(r.i_tow as nat) + u16_bytes(r.year as nat) + seq![r.month] + seq![r.day] + seq![r.hour] + seq![r.min] + seq![r.sec] + seq![r.valid] + u32_bytes(r.t_acc as nat) + i32_bytes(r.nano) + seq![r.fix_type] + seq![r.flags] + seq![r.flags2] + seq![r.numsv] + i32_bytes(r.lon) + i32_bytes(r.lat) + i32_bytes(r.height) + i32_bytes(r.height_sea) + u32_bytes(r.h_acc as nat) + u32_bytes(r.v_acc as nat) + i32_bytes(r.vel_n) + i32_bytes(r.vel_e) + i32_bytes(r.vel_d) + i32_bytes(r.g_speed), i32_bytes(r.heading_mot), 64, 68);
    lemma_extend(p, u32_bytes(r.i_tow as nat) + u16_bytes(r.year as nat) + seq![r.month] + seq![r.day] + seq![r.hour] + seq![r.min] + seq![r.sec] + seq![r.valid] + u32_bytes(r.t_acc as nat) + i32_bytes(r.nano) + seq![r.fix_type] + seq![r.flags] + seq![r.flags2] + seq![r.numsv] + i32_bytes(r.lon) + i32_bytes(r.lat) + i32_bytes(r.height) + i32_bytes(r.height_sea) + u32_bytes(r.h_acc as nat) + u32_bytes(r.v_acc as nat) + i32_bytes(r.vel_n) + i32_bytes(r.vel_e) + i32_bytes(r.vel_d) + i32_bytes(r.g_speed) + i32_bytes(r.heading_mot), u32_bytes(r.s_acc as nat), 68, 72);
    lemma_extend(p, u32_bytes(r.i_tow as nat) + u16_bytes(r.year as nat) + seq![r.month] + seq![r.day] + seq![r.hour] + seq![r.min] + seq![r.sec] + seq![r.valid] + u32_bytes(r.t_acc as nat) + i32_bytes(r.nano) + seq![r.fix_type] + seq![r.flags] + seq![r.flags2] + seq![r.numsv] + i32_bytes(r.lon) + i32_bytes(r.lat) + i32_bytes(r.height) + i32_bytes(r.height_sea) + u32_bytes(r.h_acc as nat) + u32_bytes(r.v_acc as nat) + i32_bytes(r.vel_n) + i32_bytes(r.vel_e) + i32_bytes(r.vel_d) + i32_bytes(r.g_speed) + i32_bytes(r.heading_mot) + u32_bytes(r.s_acc as nat), u32_bytes(r.head_acc as nat), 72, 76);
    lemma_extend(p, u32_bytes(r.i_tow as nat) + u16_bytes(r.year as nat) + seq![r.month] + seq![r.day] + seq![r.hour] + seq![r.min] + seq![r.sec] + seq![r.valid] + u32_bytes(r.t_acc as nat) + i32_bytes(r.nano) + seq![r.fix_type] + seq![r.flags] + seq![r.flags2] + seq![r.numsv] + i32_bytes(r.lon) + i32_bytes(r.lat) + i32_bytes(r.height) + i32_bytes(r.height_sea) + u32_bytes(r.h_acc as nat) + u32_bytes(r.v_acc as nat) + i32_bytes(r.vel_n) + i32_bytes(r.vel_e) + i32_bytes(r.vel_d) + i32_bytes(r.g_speed) + i32_bytes(r.heading_mot) + u32_bytes(r.s_acc as nat) + u32_bytes(r.head_acc as nat), u16_bytes(r.p_dop as nat), 76, 78);
    lemma_extend(p, u32_bytes(r.i_tow as nat) + u16_bytes(r.year as nat) + seq![r.month] + seq![r.day] + seq![r.hour] + seq![r.min] + seq![r.sec] + seq![r.valid] + u32_bytes(r.t_acc as nat) + i32_bytes(r.nano) + seq![r.fix_type] + seq![r.flags] + seq![r.flags2] + seq![r.numsv] + i32_bytes(r.lon) + i32_bytes(r.lat) + i32_bytes(r.height) + i32_bytes(r.height_sea) + u32_bytes(r.h_acc as nat) + u32_bytes(r.v_acc as nat) + i32_bytes(r.vel_n) + i32_bytes(r.vel_e) + i32_bytes(r.vel_d) + i32_bytes(r.g_speed) + i32_bytes(r.heading_mot) + u32_bytes(r.s_acc as nat) + u32_bytes(r.head_acc as nat) + u16_bytes(r.p_dop as nat), seq![r.flags3], 78, 79);
    lemma_extend(p, u32_bytes(r.i_tow as nat) + u16_bytes(r.year as nat) + seq![r.month] + seq![r.day] + seq![r.hour] + seq![r.min] + seq![r.sec] + seq![r.valid] + u32_bytes(r.t_acc as nat) + i32_bytes(r.nano) + seq![r.fix_type] + seq![r.flags] + seq![r.flags2] + seq![r.numsv] + i32_bytes(r.lon) + i32_bytes(r.lat) + i32_bytes(r.height) + i32_bytes(r.height_sea) + u32_bytes(r.h_acc as nat) + u32_bytes(r.v_acc as nat) + i32_bytes(r.vel_n) + i32_bytes(r.vel_e) + i32_bytes(r.vel_d) + i32_bytes(r.g_speed) + i32_bytes(r.heading_mot) + u32_bytes(r.s_acc as nat) + u32_bytes(r.head_acc as nat) + u16_bytes(r.p_dop as nat) + seq![r.flags3], seq![r.res1@[0]], 79, 80);
    lemma_extend(p, u32_bytes(r.i_tow as nat) + u16_bytes(r.year as nat) + seq![r.month] + seq![r.day] + seq![r.hour] + seq![r.min] + seq![r.sec] + seq![r.valid] + u32_bytes(r.t_acc as nat) + i32_bytes(r.nano) + seq![r.fix_type] + seq![r.flags] + seq![r.flags2] + seq![r.numsv] + i32_bytes(r.lon) + i32_bytes(r.lat) + i32_bytes(r.height) + i32_bytes(r.height_sea) + u32_bytes(r.h_acc as nat) + u32_bytes(r.v_acc as nat) + i32_bytes(r.vel_n) + i32_bytes(r.vel_e) + i32_bytes(r.vel_d) + i32_bytes(r.g_speed) + i32_bytes(r.heading_mot) + u32_bytes(r.s_acc as nat) + u32_bytes(r.head_acc as nat) + u16_bytes(r.p_dop as nat) + seq![r.flags3] + seq![r.res1@[0]], seq![r.res1@[1]], 80, 81);
    lemma_extend(p, u32_bytes(r.i_tow as nat) + u16_bytes(r.year as nat) + seq![r.month] + seq![r.day] + seq![r.hour] + seq![r.min] + seq![r.sec] + seq![r.valid] + u32_bytes(r.t_acc as nat) + i32_bytes(r.nano) + seq![r.fix_type] + seq![r.flags] + seq![r.flags2] + seq![r.numsv] + i32_bytes(r.lon) + i32_bytes(r.lat) + i32_bytes(r.height) + i32_bytes(r.height_sea) + u32_bytes(r.h_acc as nat) + u32_bytes(r.v_acc as nat) + i32_bytes(r.vel_n) + i32_bytes(r.vel_e) + i32_bytes(r.vel_d) + i32_bytes(r.g_speed) + i32_bytes(r.heading_mot) + u32_bytes(r.s_acc as nat) + u32_bytes(r.head_acc as nat) + u16_bytes(r.p_dop as nat) + seq![r.flags3] + seq![r.res1@[0]] + seq![r.res1@[1]], seq![r.res1@[2]], 81, 82);
    lemma_extend(p, u32_bytes(r.i_tow as nat) + u16_bytes(r.year as nat) + seq![r.month] + seq![r.day] + seq![r.hour] + seq![r.min] + seq![r.sec] + seq![r.valid] + u32_bytes(r.t_acc as nat) + i32_bytes(r.nano) + seq![r.fix_type] + seq![r.flags] + seq![r.flags2] + seq![r.numsv] + i32_bytes(r.lon) + i32_bytes(r.lat) + i32_bytes(r.height) + i32_bytes(r.height_sea) + u32_bytes(r.h_acc as nat) + u32_bytes(r.v_acc as nat) + i32_bytes(r.vel_n) + i32_bytes(r.vel_e) + i32_bytes(r.vel_d) + i32_bytes(r.g_speed) + i32_bytes(r.heading_mot) + u32_bytes(r.s_acc as nat) + u32_bytes(r.head_acc as nat) + u16_bytes(r.p_dop as nat) + seq![r.flags3] + seq![r.res1@[0]] + seq![r.res1@[1]] + seq![r.res1@[2]], seq![r.res1@[3]], 82, 83);
    lemma_extend(p, u32_bytes(r.i_tow as nat) + u16_bytes(r.year as nat) + seq![r.month] + seq![r.day] + seq![r.hour] + seq![r.min] + seq![r.sec] + seq![r.valid] + u32_bytes(r.t_acc as nat) + i32_bytes(r.nano) + seq![r.fix_type] + seq![r.flags] + seq![r.flags2] + seq![r.numsv] + i32_bytes(r.lon) + i32_bytes(r.lat) + i32_bytes(r.height) + i32_bytes(r.height_sea) + u32_bytes(r.h_acc as nat) + u32_bytes(r.v_acc as nat) + i32_bytes(r.vel_n) + i32_bytes(r.vel_e) + i32_bytes(r.vel_d) + i32_bytes(r.g_speed) + i32_bytes(r.heading_mot) + u32_bytes(r.s_acc as nat) + u32_bytes(r.head_acc as nat) + u16_bytes(r.p_dop as nat) + seq![r.flags3] + seq![r.res1@[0]] + seq![r.res1@[1]] + seq![r.res1@[2]] + seq![r.res1@[3]], seq![r.res1@[4]], 83, 84);
    lemma_extend(p, u32_bytes(r.i_tow as nat) + u16_bytes(r.year as nat) + seq![r.month] + seq![r.day] + seq![r.hour] + seq![r.min] + seq![r.sec] + seq![r.valid] + u32_bytes(r.t_acc as nat) + i32_bytes(r.nano) + seq![r.fix_type] + seq![r.flags] + seq![r.flags2] + seq![r.numsv] + i32_bytes(r.lon) + i32_bytes(r.lat) + i32_bytes(r.height) + i32_bytes(r.height_sea) + u32_bytes(r.h_acc as nat) + u32_bytes(r.v_acc as nat) + i32_bytes(r.vel_n) + i32_bytes(r.vel_e) + i32_bytes(r.vel_d) + i32_bytes(r.g_speed) + i32_bytes(r.heading_mot) + u32_bytes(r.s_acc as nat) + u32_bytes(r.head_acc as nat) + u16_bytes(r.p_dop as nat) + seq![r.flags3] + seq![r.res1@[0]] + seq![r.res1@[1]] + seq![r.res1@[2]] + seq![r.res1@[3]] + seq![r.res1@[4]], i32_bytes(r.head_veh), 84, 88);
    lemma_extend(p, u32_bytes(r.i_tow as nat) + u16_bytes(r.year as nat) + seq![r.month] + seq![r.day] + seq![r.hour] + seq![r.min] + seq![r.sec] + seq![r.valid] + u32_bytes(r.t_acc as nat) + i32_bytes(r.nano) + seq![r.fix_type] + seq![r.flags] + seq![r.flags2] + seq![r.numsv] + i32_bytes(r.lon) + i32_bytes(r.lat) + i32_bytes(r.height) + i32_bytes(r.height_sea) + u32_bytes(r.h_acc as nat) + u32_bytes(r.v_acc as nat) + i32_bytes(r.vel_n) + i32_bytes(r.vel_e) + i32_bytes(r.vel_d) + i32_bytes(r.g_speed) + i32_bytes(r.heading_mot) + u32_bytes(r.s_acc as nat) + u32_bytes(r.head_acc as nat) + u16_bytes(r.p_dop as nat) + seq![r.flags3] + seq![r.res1@[0]] + seq![r.res1@[1]] + seq![r.res1@[2]] + seq![r.res1@[3]] + seq![r.res1@[4]] + i32_bytes(r.head_veh), i16_bytes(r.mag_dec), 88, 90);
    lemma_extend(p, u32_bytes(r.i_tow as nat) + u16_bytes(r.year as nat) + seq![r.month] + seq![r.day] + seq![r.hour] + seq![r.min] + seq![r.sec] + seq![r.valid] + u32_bytes(r.t_acc as nat) + i32_bytes(r.nano) + seq![r.fix_type] + seq![r.flags] + seq![r.flags2] + seq![r.numsv] + i32_bytes(r.lon) + i32_bytes(r.lat) + i32_bytes(r.height) + i32_bytes(r.height_sea) + u32_bytes(r.h_acc as nat) + u32_bytes(r.v_acc as nat) + i32_bytes(r.vel_n) + i32_bytes(r.vel_e) + i32_bytes(r.vel_d) + i32_bytes(r.g_speed) + i32_bytes(r.heading_mot) + u32_bytes(r.s_acc as nat) + u32_bytes(r.head_acc as nat) + u16_bytes(r.p_dop as nat) + seq![r.flags3] + seq![r.res1@[0]] + seq![r.res1@[1]] + seq![r.res1@[2]] + seq![r.res1@[3]] + seq![r.res1@[4]] + i32_bytes(r.head_veh) + i16_bytes(r.mag_dec), u16_bytes(r.mag_acc as nat), 90, 92);
    assert(p.subrange(0, 92) =~= p);
}

/// NAV-RELPOSNED (0x01 0x3C): position relative to the reference station.
/// `flags` holds `RelFlags` bits.
#[derive(Debug, Clone, Copy)]
pub struct RelPosNed {
    pub version: u8,
    pub res1: u8,
    pub ref_station_id: u16,
    pub i_tow: u32,
    pub rel_pos_n: i32,
    pub rel_pos_e: i32,
    pub rel_pos_d: i32,
    pub rel_pos_length: i32,
    pub rel_pos_heading: i32,
    pub res2: [u8; 4],
    pub rel_pos_n_hp: i8,
    pub rel_pos_e_hp: i8,
    pub rel_pos_d_hp: i8,
    pub rel_pos_length_hp: i8,
    pub acc_n: i32,
    pub acc_e: i32,
    pub acc_d: i32,
    pub acc_length: i32,
    pub acc_heading: i32,
    pub res3: [u8; 4],
    pub flags: u32,
}

impl RelPosNed {
    #[verifier::opaque]
    pub open spec fn spec_payload(&self) -> Seq<u8> {
        seq![self.version]
            + seq![self.res1]
            + u16_bytes(self.ref_station_id as nat)
            + u32_bytes(self.i_tow as nat)
            + i32_bytes(self.rel_pos_n)
            + i32_bytes(self.rel_pos_e)
            + i32_bytes(self.rel_pos_d)
            + i32_bytes(self.rel_pos_length)
            + i32_bytes(self.rel_pos_heading)
            + seq![self.res2@[0]]
            + seq![self.res2@[1]]
            + seq![self.res2@[2]]
            + seq![self.res2@[3]]
            + seq![self.rel_pos_n_hp as u8]
            + seq![self.rel_pos_e_hp as u8]
            + seq![self.rel_pos_d_hp as u8]
            + seq![self.rel_pos_length_hp as u8]
            + i32_bytes(self.acc_n)
            + i32_bytes(self.acc_e)
            + i32_bytes(self.acc_d)
            + i32_bytes(self.acc_length)
            + i32_bytes(self.acc_heading)
            + seq![self.res3@[0]]
            + seq![self.res3@[1]]
            + seq![self.res3@[2]]
            + seq![self.res3@[3]]
            + u32_bytes(self.flags as nat)
    }

    /// Reads a payload of exactly 64 bytes.
    pub fn from_bytes(p: &[u8]) -> (r: RelPosNed)
        requires
            p@.len() == 64,
        ensures
            r.spec_payload() == p@,
    {
        let version = take_u8(p, 0);
        let res1 = take_u8(p, 1);
        let ref_station_id = take_u16(p, 2);
        let i_tow = take_u32(p, 4);
        let rel_pos_n = read_i32(p, 8);
        let rel_pos_e = read_i32(p, 12);
        let rel_pos_d = read_i32(p, 16);
        let rel_pos_length = read_i32(p, 20);
        let rel_pos_heading = read_i32(p, 24);
        let res2_0 = take_u8(p, 28);
        let res2_1 = take_u8(p, 29);
        let res2_2 = take_u8(p, 30);
        let res2_3 = take_u8(p, 31);
        let rel_pos_n_hp = read_i8(p, 32);
        let rel_pos_e_hp = read_i8(p, 33);
        let rel_pos_d_hp = read_i8(p, 34);
        let rel_pos_length_hp = read_i8(p, 35);
        let acc_n = read_i32(p, 36);
        let acc_e = read_i32(p, 40);
        let acc_d = read_i32(p, 44);
        let acc_length = read_i32(p, 48);
        let acc_heading = read_i32(p, 52);
        let res3_0 = take_u8(p, 56);
        let res3_1 = take_u8(p, 57);
        let res3_2 = take_u8(p, 58);
        let res3_3 = take_u8(p, 59);
        let flags = take_u32(p, 60);
        let r = RelPosNed {
            version,
            res1,
            ref_station_id,
            i_tow,
            rel_pos_n,
            rel_pos_e,
            rel_pos_d,
            rel_pos_length,
            rel_pos_heading,
            res2: [res2_0, res2_1, res2_2, res2_3],
            rel_pos_n_hp,
            rel_pos_e_hp,
            rel_pos_d_hp,
            rel_pos_length_hp,
            acc_n,
            acc_e,
            acc_d,
            acc_length,
            acc_heading,
            res3: [res3_0, res3_1, res3_2, res3_3],
            flags,
        };
        proof {
            lemma_relposned_bytes(r, p@);
        }
        r
    }

    /// Appends the 64-byte payload.
    pub fn write_bytes(&self, out: &mut Vec<u8>)
        ensures
            final(out)@ == old(out)@ + self.spec_payload(),
    {
        let mut buf: Vec<u8> = Vec::new();
        buf.push(self.version);
        buf.push(self.res1);
        write_u16(self.ref_station_id, &mut buf);
        write_u32(self.i_tow, &mut buf);
        write_i32(self.rel_pos_n, &mut buf);
        write_i32(self.rel_pos_e, &mut buf);
        write_i32(self.rel_pos_d, &mut buf);
        write_i32(self.rel_pos_length, &mut buf);
        write_i32(self.rel_pos_heading, &mut buf);
        buf.push(self.res2[0]);
        buf.push(self.res2[1]);
        buf.push(self.res2[2]);
        buf.push(self.res2[3]);
        buf.push(self.rel_pos_n_hp as u8);
        buf.push(self.rel_pos_e_hp as u8);
        buf.push(self.rel_pos_d_hp as u8);
        buf.push(self.rel_pos_length_hp as u8);
        write_i32(self.acc_n, &mut buf);
        write_i32(self.acc_e, &mut buf);
        write_i32(self.acc_d, &mut buf);
        write_i32(self.acc_length, &mut buf);
        write_i32(self.acc_heading, &mut buf);
        buf.push(self.res3[0]);
        buf.push(self.res3[1]);
        buf.push(self.res3[2]);
        buf.push(self.res3[3]);
        write_u32(self.flags, &mut buf);
        proof {
            reveal(RelPosNed::spec_payload);
            assert(buf@ =~= self.spec_payload());
        }
        write_all(buf.as_slice(), out);
    }
}

proof fn lemma_relposned_bytes(r: RelPosNed, p: Seq<u8>)
    requires
        p.len() == 64,
        seq![r.version] == p.subrange(0, 1),
        seq![r.res1] == p.subrange(1, 2),
        u16_bytes(r.ref_station_id as nat) == p.subrange(2, 4),
        u32_bytes(r.i_tow as nat) == p.subrange(4, 8),
        i32_bytes(r.rel_pos_n) == p.subrange(8, 12),
        i32_bytes(r.rel_pos_e) == p.subrange(12, 16),
        i32_bytes(r.rel_pos_d) == p.subrange(16, 20),
        i32_bytes(r.rel_pos_length) == p.subrange(20, 24),
        i32_bytes(r.rel_pos_heading) == p.subrange(24, 28),
        seq![r.res2@[0]] == p.subrange(28, 29),
        seq![r.res2@[1]] == p.subrange(29, 30),
        seq![r.res2@[2]] == p.subrange(30, 31),
        seq![r.res2@[3]] == p.subrange(31, 32),
        seq![r.rel_pos_n_hp as u8] == p.subrange(32, 33),
        seq![r.rel_pos_e_hp as u8] == p.subrange(33, 34),
        seq![r.rel_pos_d_hp as u8] == p.subrange(34, 35),
        seq![r.rel_pos_length_hp as u8] == p.subrange(35, 36),
        i32_bytes(r.acc_n) == p.subrange(36, 40),
        i32_bytes(r.acc_e) == p.subrange(40, 44),
        i32_bytes(r.acc_d) == p.subrange(44, 48),
        i32_bytes(r.acc_length) == p.subrange(48, 52),
        i32_bytes(r.acc_heading) == p.subrange(52, 56),
        seq![r.res3@[0]] == p.subrange(56, 57),
        seq![r.res3@[1]] == p.subrange(57, 58),
        seq![r.res3@[2]] == p.subrange(58, 59),
        seq![r.res3@[3]] == p.subrange(59, 60),
        u32_bytes(r.flags as nat) == p.subrange(60, 64),
    ensures
        r.spec_payload() == p,
{
    reveal(RelPosNed::spec_payload);
    assert(p.subrange(0, 0) =~= Seq::<u8>::empty());
    lemma_extend(p, Seq::empty(), seq![r.version], 0, 1);
    assert(Seq::<u8>::empty() + seq![r.version] =~= seq![r.version]);
    lemma_extend(p, seq![r.version], seq![r.res1], 1, 2);
    lemma_extend(p, seq![r.version] + seq![r.res1], u16_bytes(r.ref_station_id as nat), 2, 4);
    lemma_extend(p, seq![r.version] + seq![r.res1] + u16_bytes(r.ref_station_id as nat), u32_bytes(r.i_tow as nat), 4, 8);
    lemma_extend(p, seq![r.version] + seq![r.res1] + u16_bytes(r.ref_station_id as nat) + u32_bytes(r.i_tow as nat), i32_bytes(r.rel_pos_n), 8, 12);
    lemma_extend(p, seq![r.version] + seq![r.res1] + u16_bytes(r.ref_station_id as nat) + u32_bytes(r.i_tow as nat) + i32_bytes(r.rel_pos_n), i32_bytes(r.rel_pos_e), 12, 16);
    lemma_extend(p, seq![r.version] + seq![r.res1] + u16_bytes(r.ref_station_id as nat) + u32_bytes(r.i_tow as nat) + i32_bytes(r.rel_pos_n) + i32_bytes(r.rel_pos_e), i32_bytes(r.rel_pos_d), 16, 20);
    lemma_extend(p, seq![r.version] + seq![r.res1] + u16_bytes(r.ref_station_id as nat) + u32_bytes(r.i_tow as nat) + i32_bytes(r.rel_pos_n) + i32_bytes(r.rel_pos_e) + i32_bytes(r.rel_pos_d), i32_bytes(r.rel_pos_length), 20, 24);
    lemma_extend(p, seq![r.version] + seq![r.res1] + u16_bytes(r.ref_station_id as nat) + u32_bytes(r.i_tow as nat) + i32_bytes(r.rel_pos_n) + i32_bytes(r.rel_pos_e) + i32_bytes(r.rel_pos_d) + i32_bytes(r.rel_pos_length), i32_bytes(r.rel_pos_heading), 24, 28);
    lemma_extend(p, seq![r.version] + seq![r.res1] + u16_bytes(r.ref_station_id as nat) + u32_bytes(r.i_tow as nat) + i32_bytes(r.rel_pos_n) + i32_bytes(r.rel_pos_e) + i32_bytes(r.rel_pos_d) + i32_bytes(r.rel_pos_length) + i32_bytes(r.rel_pos_heading), seq![r.res2@[0]], 28, 29);
    lemma_extend(p, seq![r.version] + seq![r.res1] + u16_bytes(r.ref_station_id as nat) + u32_bytes(r.i_tow as nat) + i32_bytes(r.rel_pos_n) + i32_bytes(r.rel_pos_e) + i32_bytes(r.rel_pos_d) + i32_bytes(r.rel_pos_length) + i32_bytes(r.rel_pos_heading) + seq![r.res2@[0]], seq![r.res2@[1]], 29, 30);
    lemma_extend(p, seq![r.version] + seq![r.res1] + u16_bytes(r.ref_station_id as nat) + u32_bytes(r.i_tow as nat) + i32_bytes(r.rel_pos_n) + i32_bytes(r.rel_pos_e) + i32_bytes(r.rel_pos_d) + i32_bytes(r.rel_pos_length) + i32_bytes(r.rel_pos_heading) + seq![r.res2@[0]] + seq![r.res2@[1]], seq![r.res2@[2]], 30, 31);
    lemma_extend(p, seq![r.version] + seq![r.res1] + u16_bytes(r.ref_station_id as nat) + u32_bytes(r.i_tow as nat) + i32_bytes(r.rel_pos_n) + i32_bytes(r.rel_pos_e) + i32_bytes(r.rel_pos_d) + i32_bytes(r.rel_pos_length) + i32_bytes(r.rel_pos_heading) + seq![r.res2@[0]] + seq![r.res2@[1]] + seq![r.res2@[2]], seq![r.res2@[3]], 31, 32);
    lemma_extend(p, seq![r.version] + seq![r.res1] + u16_bytes(r.ref_station_id as nat) + u32_bytes(r.i_tow as nat) + i32_bytes(r.rel_pos_n) + i32_bytes(r.rel_pos_e) + i32_bytes(r.rel_pos_d) + i32_bytes(r.rel_pos_length) + i32_bytes(r.rel_pos_heading) + seq![r.res2@[0]] + seq![r.res2@[1]] + seq![r.res2@[2]] + seq![r.res2@[3]], seq![r.rel_pos_n_hp as u8], 32, 33);
    lemma_extend(p, seq![r.version] + seq![r.res1] + u16_bytes(r.ref_station_id as nat) + u32_bytes(r.i_tow as nat) + i32_bytes(r.rel_pos_n) + i32_bytes(r.rel_pos_e) + i32_bytes(r.rel_pos_d) + i32_bytes(r.rel_pos_length) + i32_bytes(r.rel_pos_heading) + seq![r.res2@[0]] + seq![r.res2@[1]] + seq![r.res2@[2]] + seq![r.res2@[3]] + seq![r.rel_pos_n_hp as u8], seq![r.rel_pos_e_hp as u8], 33, 34);
    lemma_extend(p, seq![r.version] + seq![r.res1] + u16_bytes(r.ref_station_id as nat) + u32_bytes(r.i_tow as nat) + i32_bytes(r.rel_pos_n) + i32_bytes(r.rel_pos_e) + i32_bytes(r.rel_pos_d) + i32_bytes(r.rel_pos_length) + i32_bytes(r.rel_pos_heading) + seq![r.res2@[0]] + seq![r.res2@[1]] + seq![r.res2@[2]] + seq![r.res2@[3]] + seq![r.rel_pos_n_hp as u8] + seq![r.rel_pos_e_hp as u8], seq![r.rel_pos_d_hp as u8], 34, 35);
    lemma_extend(p, seq![r.version] + seq![r.res1] + u16_bytes(r.ref_station_id as nat) + u32_bytes(r.i_tow as nat) + i32_bytes(r.rel_pos_n) + i32_bytes(r.rel_pos_e) + i32_bytes(r.rel_pos_d) + i32_bytes(r.rel_pos_length) + i32_bytes(r.rel_pos_heading) + seq![r.res2@[0]] + seq![r.res2@[1]] + seq![r.res2@[2]] + seq![r.res2@[3]] + seq![r.rel_pos_n_hp as u8] + seq![r.rel_pos_e_hp as u8] + seq![r.rel_pos_d_hp as u8], seq![r.rel_pos_length_hp as u8], 35, 36);
    lemma_extend(p, seq![r.version] + seq![r.res1] + u16_bytes(r.ref_station_id as nat) + u32_bytes(r.i_tow as nat) + i32_bytes(r.rel_pos_n) + i32_bytes(r.rel_pos_e) + i32_bytes(r.rel_pos_d) + i32_bytes(r.rel_pos_length) + i32_bytes(r.rel_pos_heading) + seq![r.res2@[0]] + seq![r.res2@[1]] + seq![r.res2@[2]] + seq![r.res2@[3]] + seq![r.rel_pos_n_hp as u8] + seq![r.rel_pos_e_hp as u8] + seq![r.rel_pos_d_hp as u8] + seq![r.rel_pos_length_hp as u8], i32_bytes(r.acc_n), 36, 40);
    lemma_extend(p, seq![r.version] + seq![r.res1] + u16_bytes(r.ref_station_id as nat) + u32_bytes(r.i_tow as nat) + i32_bytes(r.rel_pos_n) + i32_bytes(r.rel_pos_e) + i32_bytes(r.rel_pos_d) + i32_bytes(r.rel_pos_length) + i32_bytes(r.rel_pos_heading) + seq![r.res2@[0]] + seq![r.res2@[1]] + seq![r.res2@[2]] + seq![r.res2@[3]] + seq![r.rel_pos_n_hp as u8] + seq![r.rel_pos_e_hp as u8] + seq![r.rel_pos_d_hp as u8] + seq![r.rel_pos_length_hp as u8] + i32_bytes(r.acc_n), i32_bytes(r.acc_e), 40, 44);
    lemma_extend(p, seq![r.version] + seq![r.res1] + u16_bytes(r.ref_station_id as nat) + u32_bytes(r.i_tow as nat) + i32_bytes(r.rel_pos_n) + i32_bytes(r.rel_pos_e) + i32_bytes(r.rel_pos_d) + i32_bytes(r.rel_pos_length) + i32_bytes(r.rel_pos_heading) + seq![r.res2@[0]] + seq![r.res2@[1]] + seq![r.res2@[2]] + seq![r.res2@[3]] + seq![r.rel_pos_n_hp as u8] + seq![r.rel_pos_e_hp as u8] + seq![r.rel_pos_d_hp as u8] + seq![r.rel_pos_length_hp as u8] + i32_bytes(r.acc_n) + i32_bytes(r.acc_e), i32_bytes(r.acc_d), 44, 48);
    lemma_extend(p, seq![r.version] + seq![r.res1] + u16_bytes(r.ref_station_id as nat) + u32_bytes(r.i_tow as nat) + i32_bytes(r.rel_pos_n) + i32_bytes(r.rel_pos_e) + i32_bytes(r.rel_pos_d) + i32_bytes(r.rel_pos_length) + i32_bytes(r.rel_pos_heading) + seq![r.res2@[0]] + seq![r.res2@[1]] + seq![r.res2@[2]] + seq![r.res2@[3]] + seq![r.rel_pos_n_hp as u8] + seq![r.rel_pos_e_hp as u8] + seq![r.rel_pos_d_hp as u8] + seq![r.rel_pos_length_hp as u8] + i32_bytes(r.acc_n) + i32_bytes(r.acc_e) + i32_bytes(r.acc_d), i32_bytes(r.acc_length), 48, 52);
    lemma_extend(p, seq![r.version] + seq![r.res1] + u16_bytes(r.ref_station_id as nat) + u32_bytes(r.i_tow as nat) + i32_bytes(r.rel_pos_n) + i32_bytes(r.rel_pos_e) + i32_bytes(r.rel_pos_d) + i32_bytes(r.rel_pos_length) + i32_bytes(r.rel_pos_heading) + seq![r.res2@[0]] + seq![r.res2@[1]] + seq![r.res2@[2]] + seq![r.res2@[3]] + seq![r.rel_pos_n_hp as u8] + seq![r.rel_pos_e_hp as u8] + seq![r.rel_pos_d_hp as u8] + seq![r.rel_pos_length_hp as u8] + i32_bytes(r.acc_n) + i32_bytes(r.acc_e) + i32_bytes(r.acc_d) + i32_bytes(r.acc_length), i32_bytes(r.acc_heading), 52, 56);
    lemma_extend(p, seq![r.version] + seq![r.res1] + u16_bytes(r.ref_station_id as nat) + u32_bytes(r.i_tow as nat) + i32_bytes(r.rel_pos_n) + i32_bytes(r.rel_pos_e) + i32_bytes(r.rel_pos_d) + i32_bytes(r.rel_pos_length) + i32_bytes(r.rel_pos_heading) + seq![r.res2@[0]] + seq![r.res2@[1]] + seq![r.res2@[2]] + seq![r.res2@[3]] + seq![r.rel_pos_n_hp as u8] + seq![r.rel_pos_e_hp as u8] + seq![r.rel_pos_d_hp as u8] + seq![r.rel_pos_length_hp as u8] + i32_bytes(r.acc_n) + i32_bytes(r.acc_e) + i32_bytes(r.acc_d) + i32_bytes(r.acc_length) + i32_bytes(r.acc_heading), seq![r.res3@[0]], 56, 57);
    lemma_extend(p, seq![r.version] + seq![r.res1] + u16_bytes(r.ref_station_id as nat) + u32_bytes(r.i_tow as nat) + i32_bytes(r.rel_pos_n) + i32_bytes(r.rel_pos_e) + i32_bytes(r.rel_pos_d) + i32_bytes(r.rel_pos_length) + i32_bytes(r.rel_pos_heading) + seq![r.res2@[0]] + seq![r.res2@[1]] + seq![r.res2@[2]] + seq![r.res2@[3]] + seq![r.rel_pos_n_hp as u8] + seq![r.rel_pos_e_hp as u8] + seq![r.rel_pos_d_hp as u8] + seq![r.rel_pos_length_hp as u8] + i32_bytes(r.acc_n) + i32_bytes(r.acc_e) + i32_bytes(r.acc_d) + i32_bytes(r.acc_length) + i32_bytes(r.acc_heading) + seq![r.res3@[0]], seq![r.res3@[1]], 57, 58);
    lemma_extend(p, seq![r.version] + seq![r.res1] + u16_bytes(r.ref_station_id as nat) + u32_bytes(r.i_tow as nat) + i32_bytes(r.rel_pos_n) + i32_bytes(r.rel_pos_e) + i32_bytes(r.rel_pos_d) + i32_bytes(r.rel_pos_length) + i32_bytes(r.rel_pos_heading) + seq![r.res2@[0]] + seq![r.res2@[1]] + seq![r.res2@[2]] + seq![r.res2@[3]] + seq![r.rel_pos_n_hp as u8] + seq![r.rel_pos_e_hp as u8] + seq![r.rel_pos_d_hp as u8] + seq![r.rel_pos_length_hp as u8] + i32_bytes(r.acc_n) + i32_bytes(r.acc_e) + i32_bytes(r.acc_d) + i32_bytes(r.acc_length) + i32_bytes(r.acc_heading) + seq![r.res3@[0]] + seq![r.res3@[1]], seq![r.res3@[2]], 58, 59);
    lemma_extend(p, seq![r.version] + seq![r.res1] + u16_bytes(r.ref_station_id as nat) + u32_bytes(r.i_tow as nat) + i32_bytes(r.rel_pos_n) + i32_bytes(r.rel_pos_e) + i32_bytes(r.rel_pos_d) + i32_bytes(r.rel_pos_length) + i32_bytes(r.rel_pos_heading) + seq![r.res2@[0]] + seq![r.res2@[1]] + seq![r.res2@[2]] + seq![r.res2@[3]] + seq![r.rel_pos_n_hp as u8] + seq![r.rel_pos_e_hp as u8] + seq![r.rel_pos_d_hp as u8] + seq![r.rel_pos_length_hp as u8] + i32_bytes(r.acc_n) + i32_bytes(r.acc_e) + i32_bytes(r.acc_d) + i32_bytes(r.acc_length) + i32_bytes(r.acc_heading) + seq![r.res3@[0]] + seq![r.res3@[1]] + seq![r.res3@[2]], seq![r.res3@[3]], 59, 60);
    lemma_extend(p, seq![r.version] + seq![r.res1] + u16_bytes(r.ref_station_id as nat) + u32_bytes(r.i_tow as nat) + i32_bytes(r.rel_pos_n) + i32_bytes(r.rel_pos_e) + i32_bytes(r.rel_pos_d) + i32_bytes(r.rel_pos_length) + i32_bytes(r.rel_pos_heading) + seq![r.res2@[0]] + seq![r.res2@[1]] + seq![r.res2@[2]] + seq![r.res2@[3]] + seq![r.rel_pos_n_hp as u8] + seq![r.rel_pos_e_hp as u8] + seq![r.rel_pos_d_hp as u8] + seq![r.rel_pos_length_hp as u8] + i32_bytes(r.acc_n) + i32_bytes(r.acc_e) + i32_bytes(r.acc_d) + i32_bytes(r.acc_length) + i32_bytes(r.acc_heading) + seq![r.res3@[0]] + seq![r.res3@[1]] + seq![r.res3@[2]] + seq![r.res3@[3]], u32_bytes(r.flags as nat), 60, 64);
    assert(p.subrange(0, 64) =~= p);
}

/// NAV-SVIN (0x01 0x3B): progress of the survey-in.
#[derive(Debug, Clone, Copy)]
pub struct Svin {
    pub version: u8,
    pub res1: [u8; 3],
    pub i_tow: u32,
    pub dur: u32,
    pub mean_x: i32,
    pub mean_y: i32,
    pub mean_z: i32,
    pub mean_x_hp: i8,
    pub mean_y_hp: i8,
    pub mean_z_hp: i8,
    pub res2: u8,
    pub mean_acc: u32,
    pub obs: u32,
    pub valid: u8,
    pub active: u8,
    pub res3: [u8; 2],
}

impl Svin {
    #[verifier::opaque]
    pub open spec fn spec_payload(&self) -> Seq<u8> {
        seq![self.version]
            + seq![self.res1@[0]]
            + seq![self.res1@[1]]
            + seq![self.res1@[2]]
            + u32_bytes(self.i_tow as nat)
            + u32_bytes(self.dur as nat)
            + i32_bytes(self.mean_x)
            + i32_bytes(self.mean_y)
            + i32_bytes(self.mean_z)
            + seq![self.mean_x_hp as u8]
            + seq![self.mean_y_hp as u8]
            + seq![self.mean_z_hp as u8]
            + seq![self.res2]
            + u32_bytes(self.mean_acc as nat)
            + u32_bytes(self.obs as nat)
            + seq![self.valid]
            + seq![self.active]
            + seq![self.res3@[0]]
            + seq![self.res3@[1]]
    }

    /// Reads a payload of exactly 40 bytes.
    pub fn from_bytes(p: &[u8]) -> (r: Svin)
        requires
            p@.len() == 40,
        ensures
            r.spec_payload() == p@,
    {
        let version = take_u8(p, 0);
        let res1_0 = take_u8(p, 1);
        let res1_1 = take_u8(p, 2);
        let res1_2 = take_u8(p, 3);
        let i_tow = take_u32(p, 4);
        let dur = take_u32(p, 8);
        let mean_x = read_i32(p, 12);
        let mean_y = read_i32(p, 16);
        let mean_z = read_i32(p, 20);
        let mean_x_hp = read_i8(p, 24);
        let mean_y_hp = read_i8(p, 25);
        let mean_z_hp = read_i8(p, 26);
        let res2 = take_u8(p, 27);
        let mean_acc = take_u32(p, 28);
        let obs = take_u32(p, 32);
        let valid = take_u8(p, 36);
        let active = take_u8(p, 37);
        let res3_0 = take_u8(p, 38);
        let res3_1 = take_u8(p, 39);
        let r = Svin {
            version,
            res1: [res1_0, res1_1, res1_2],
            i_tow,
            dur,
            mean_x,
            mean_y,
            mean_z,
            mean_x_hp,
            mean_y_hp,
            mean_z_hp,
            res2,
            mean_acc,
            obs,
            valid,
            active,
            res3: [res3_0, res3_1],
        };
        proof {
            lemma_svin_bytes(r, p@);
        }
        r
    }

    /// Appends the 40-byte payload.
    pub fn write_bytes(&self, out: &mut Vec<u8>)
        ensures
            final(out)@ == old(out)@ + self.spec_payload(),
    {
        let mut buf: Vec<u8> = Vec::new();
        buf.push(self.version);
        buf.push(self.res1[0]);
        buf.push(self.res1[1]);
        buf.push(self.res1[2]);
        write_u32(self.i_tow, &mut buf);
        write_u32(self.dur, &mut buf);
        write_i32(self.mean_x, &mut buf);
        write_i32(self.mean_y, &mut buf);
        write_i32(self.mean_z, &mut buf);
        buf.push(self.mean_x_hp as u8);
        buf.push(self.mean_y_hp as u8);
        buf.push(self.mean_z_hp as u8);
        buf.push(self.res2);
        write_u32(self.mean_acc, &mut buf);
        write_u32(self.obs, &mut buf);
        buf.push(self.valid);
        buf.push(self.active);
        buf.push(self.res3[0]);
        buf.push(self.res3[1]);
        proof {
            reveal(Svin::spec_payload);
            assert(buf@ =~= self.spec_payload());
        }
        write_all(buf.as_slice(), out);
    }
}

proof fn lemma_svin_bytes(r: Svin, p: Seq<u8>)
    requires
        p.len() == 40,
        seq![r.version] == p.subrange(0, 1),
        seq![r.res1@[0]] == p.subrange(1, 2),
        seq![r.res1@[1]] == p.subrange(2, 3),
        seq![r.res1@[2]] == p.subrange(3, 4),
        u32_bytes(r.i_tow as nat) == p.subrange(4, 8),
        u32_bytes(r.dur as nat) == p.subrange(8, 12),
        i32_bytes(r.mean_x) == p.subrange(12, 16),
        i32_bytes(r.mean_y) == p.subrange(16, 20),
        i32_bytes(r.mean_z) == p.subrange(20, 24),
        seq![r.mean_x_hp as u8] == p.subrange(24, 25),
        seq![r.mean_y_hp as u8] == p.subrange(25, 26),
        seq![r.mean_z_hp as u8] == p.subrange(26, 27),
        seq![r.res2] == p.subrange(27, 28),
        u32_bytes(r.mean_acc as nat) == p.subrange(28, 32),
        u32_bytes(r.obs as nat) == p.subrange(32, 36),
        seq![r.valid] == p.subrange(36, 37),
        seq![r.active] == p.subrange(37, 38),
        seq![r.res3@[0]] == p.subrange(38, 39),
        seq![r.res3@[1]] == p.subrange(39, 40),
    ensures
        r.spec_payload() == p,
{
    reveal(Svin::spec_payload);
    assert(p.subrange(0, 0) =~= Seq::<u8>::empty());
    lemma_extend(p, Seq::empty(), seq![r.version], 0, 1);
    assert(Seq::<u8>::empty() + seq![r.version] =~= seq![r.version]);
    lemma_extend(p, seq![r.version], seq![r.res1@[0]], 1, 2);
    lemma_extend(p, seq![r.version] + seq![r.res1@[0]], seq![r.res1@[1]], 2, 3);
    lemma_extend(p, seq![r.version] + seq![r.res1@[0]] + seq![r.res1@[1]], seq![r.res1@[2]], 3, 4);
    lemma_extend(p, seq![r.version] + seq![r.res1@[0]] + seq![r.res1@[1]] + seq![r.res1@[2]], u32_bytes(r.i_tow as nat), 4, 8);
    lemma_extend(p, seq![r.version] + seq![r.res1@[0]] + seq![r.res1@[1]] + seq![r.res1@[2]] + u32_bytes(r.i_tow as nat), u32_bytes(r.dur as nat), 8, 12);
    lemma_extend(p, seq![r.version] + seq![r.res1@[0]] + seq![r.res1@[1]] + seq![r.res1@[2]] + u32_bytes(r.i_tow as nat) + u32_bytes(r.dur as nat), i32_bytes(r.mean_x), 12, 16);
    lemma_extend(p, seq![r.version] + seq![r.res1@[0]] + seq![r.res1@[1]] + seq![r.res1@[2]] + u32_bytes(r.i_tow as nat) + u32_bytes(r.dur as nat) + i32_bytes(r.mean_x), i32_bytes(r.mean_y), 16, 20);
    lemma_extend(p, seq![r.version] + seq![r.res1@[0]] + seq![r.res1@[1]] + seq![r.res1@[2]] + u32_bytes(r.i_tow as nat) + u32_bytes(r.dur as nat) + i32_bytes(r.mean_x) + i32_bytes(r.mean_y), i32_bytes(r.mean_z), 20, 24);
    lemma_extend(p, seq![r.version] + seq![r.res1@[0]] + seq![r.res1@[1]] + seq![r.res1@[2]] + u32_bytes(r.i_tow as nat) + u32_bytes(r.dur as nat) + i32_bytes(r.mean_x) + i32_bytes(r.mean_y) + i32_bytes(r.mean_z), seq![r.mean_x_hp as u8], 24, 25);
    lemma_extend(p, seq![r.version] + seq![r.res1@[0]] + seq![r.res1@[1]] + seq![r.res1@[2]] + u32_bytes(r.i_tow as nat) + u32_bytes(r.dur as nat) + i32_bytes(r.mean_x) + i32_bytes(r.mean_y) + i32_bytes(r.mean_z) + seq![r.mean_x_hp as u8], seq![r.mean_y_hp as u8], 25, 26);
    lemma_extend(p, seq![r.version] + seq![r.res1@[0]] + seq![r.res1@[1]] + seq![r.res1@[2]] + u32_bytes(r.i_tow as nat) + u32_bytes(r.dur as nat) + i32_bytes(r.mean_x) + i32_bytes(r.mean_y) + i32_bytes(r.mean_z) + seq![r.mean_x_hp as u8] + seq![r.mean_y_hp as u8], seq![r.mean_z_hp as u8], 26, 27);
    lemma_extend(p, seq![r.version] + seq![r.res1@[0]] + seq![r.res1@[1]] + seq![r.res1@[2]] + u32_bytes(r.i_tow as nat) + u32_bytes(r.dur as nat) + i32_bytes(r.mean_x) + i32_bytes(r.mean_y) + i32_bytes(r.mean_z) + seq![r.mean_x_hp as u8] + seq![r.mean_y_hp as u8] + seq![r.mean_z_hp as u8], seq![r.res2], 27, 28);
    lemma_extend(p, seq![r.version] + seq![r.res1@[0]] + seq![r.res1@[1]] + seq![r.res1@[2]] + u32_bytes(r.i_tow as nat) + u32_bytes(r.dur as nat) + i32_bytes(r.mean_x) + i32_bytes(r.mean_y) + i32_bytes(r.mean_z) + seq![r.mean_x_hp as u8] + seq![r.mean_y_hp as u8] + seq![r.mean_z_hp as u8] + seq![r.res2], u32_bytes(r.mean_acc as nat), 28, 32);
    lemma_extend(p, seq![r.version] + seq![r.res1@[0]] + seq![r.res1@[1]] + seq![r.res1@[2]] + u32_bytes(r.i_tow as nat) + u32_bytes(r.dur as nat) + i32_bytes(r.mean_x) + i32_bytes(r.mean_y) + i32_bytes(r.mean_z) + seq![r.mean_x_hp as u8] + seq![r.mean_y_hp as u8] + seq![r.mean_z_hp as u8] + seq![r.res2] + u32_bytes(r.mean_acc as nat), u32_bytes(r.obs as nat), 32, 36);
    lemma_extend(p, seq![r.version] + seq![r.res1@[0]] + seq![r.res1@[1]] + seq![r.res1@[2]] + u32_bytes(r.i_tow as nat) + u32_bytes(r.dur as nat) + i32_bytes(r.mean_x) + i32_bytes(r.mean_y) + i32_bytes(r.mean_z) + seq![r.mean_x_hp as u8] + seq![r.mean_y_hp as u8] + seq![r.mean_z_hp as u8] + seq![r.res2] + u32_bytes(r.mean_acc as nat) + u32_bytes(r.obs as nat), seq![r.valid], 36, 37);
    lemma_extend(p, seq![r.version] + seq![r.res1@[0]] + seq![r.res1@[1]] + seq![r.res1@[2]] + u32_bytes(r.i_tow as nat) + u32_bytes(r.dur as nat) + i32_bytes(r.mean_x) + i32_bytes(r.mean_y) + i32_bytes(r.mean_z) + seq![r.mean_x_hp as u8] + seq![r.mean_y_hp as u8] + seq![r.mean_z_hp as u8] + seq![r.res2] + u32_bytes(r.mean_acc as nat) + u32_bytes(r.obs as nat) + seq![r.valid], seq![r.active], 37, 38);
    lemma_extend(p, seq![r.version] + seq![r.res1@[0]] + seq![r.res1@[1]] + seq![r.res1@[2]] + u32_bytes(r.i_tow as nat) + u32_bytes(r.dur as nat) + i32_bytes(r.mean_x) + i32_bytes(r.mean_y) + i32_bytes(r.mean_z) + seq![r.mean_x_hp as u8] + seq![r.mean_y_hp as u8] + seq![r.mean_z_hp as u8] + seq![r.res2] + u32_bytes(r.mean_acc as nat) + u32_bytes(r.obs as nat) + seq![r.valid] + seq![r.active], seq![r.res3@[0]], 38, 39);
    lemma_extend(p, seq![r.version] + seq![r.res1@[0]] + seq![r.res1@[1]] + seq![r.res1@[2]] + u32_bytes(r.i_tow as nat) + u32_bytes(r.dur as nat) + i32_bytes(r.mean_x) + i32_bytes(r.mean_y) + i32_bytes(r.mean_z) + seq![r.mean_x_hp as u8] + seq![r.mean_y_hp as u8] + seq![r.mean_z_hp as u8] + seq![r.res2] + u32_bytes(r.mean_acc as nat) + u32_bytes(r.obs as nat) + seq![r.valid] + seq![r.active] + seq![r.res3@[0]], seq![r.res3@[1]], 39, 40);
    assert(p.subrange(0, 40) =~= p);
}

/// NAV-TIMEGPS (0x01 0x20): GPS time.
#[derive(Debug, Clone, Copy)]
pub struct TimeGps {
    pub i_tow: u32,
    pub ftow: i32,
    pub week: i16,
    pub leap_s: i8,
    pub valid: u8,
    pub t_acc: u32,
}

impl TimeGps {
    #[verifier::opaque]
    pub open spec fn spec_payload(&self) -> Seq<u8> {
        u32_bytes(self.i_tow as nat)
            + i32_bytes(self.ftow)
            + i16_bytes(self.week)
            + seq![self.leap_s as u8]
            + seq![self.valid]
            + u32_bytes(self.t_acc as nat)
    }

    /// Reads a payload of exactly 16 bytes.
    pub fn from_bytes(p: &[u8]) -> (r: TimeGps)
        requires
            p@.len() == 16,
        ensures
            r.spec_payload() == p@,
    {
        let i_tow = take_u32(p, 0);
        let ftow = read_i32(p, 4);
        let week = read_i16(p, 8);
        let leap_s = read_i8(p, 10);
        let valid = take_u8(p, 11);
        let t_acc = take_u32(p, 12);
        let r = TimeGps {
            i_tow,
            ftow,
            week,
            leap_s,
            valid,
            t_acc,
        };
        proof {
            lemma_timegps_bytes(r, p@);
        }
        r
    }

    /// Appends the 16-byte payload.
    pub fn write_bytes(&self, out: &mut Vec<u8>)
        ensures
            final(out)@ == old(out)@ + self.spec_payload(),
    {
        let mut buf: Vec<u8> = Vec::new();
        write_u32(self.i_tow, &mut buf);
        write_i32(self.ftow, &mut buf);
        write_i16(self.week, &mut buf);
        buf.push(self.leap_s as u8);
        buf.push(self.valid);
        write_u32(self.t_acc, &mut buf);
        proof {
            reveal(TimeGps::spec_payload);
            assert(buf@ =~= self.spec_payload());
        }
        write_all(buf.as_slice(), out);
    }
}

proof fn lemma_timegps_bytes(r: TimeGps, p: Seq<u8>)
    requires
        p.len() == 16,
        u32_bytes(r.i_tow as nat) == p.subrange(0, 4),
        i32_bytes(r.ftow) == p.subrange(4, 8),
        i16_bytes(r.week) == p.subrange(8, 10),
        seq![r.leap_s as u8] == p.subrange(10, 11),
        seq![r.valid] == p.subrange(11, 12),
        u32_bytes(r.t_acc as nat) == p.subrange(12, 16),
    ensures
        r.spec_payload() == p,
{
    reveal(TimeGps::spec_payload);
    assert(p.subrange(0, 0) =~= Seq::<u8>::empty());
    lemma_extend(p, Seq::empty(), u32_bytes(r.i_tow as nat), 0, 4);
    assert(Seq::<u8>::empty() + u32_bytes(r.i_tow as nat) =~= u32_bytes(r.i_tow as nat));
    lemma_extend(p, u32_bytes(r.i_tow as nat), i32_bytes(r.ftow), 4, 8);
    lemma_extend(p, u32_bytes(r.i_tow as nat) + i32_bytes(r.ftow), i16_bytes(r.week), 8, 10);
    lemma_extend(p, u32_bytes(r.i_tow as nat) + i32_bytes(r.ftow) + i16_bytes(r.week), seq![r.leap_s as u8], 10, 11);
    lemma_extend(p, u32_bytes(r.i_tow as nat) + i32_bytes(r.ftow) + i16_bytes(r.week) + seq![r.leap_s as u8], seq![r.valid], 11, 12);
    lemma_extend(p, u32_bytes(r.i_tow as nat) + i32_bytes(r.ftow) + i16_bytes(r.week) + seq![r.leap_s as u8] + seq![r.valid], u32_bytes(r.t_acc as nat), 12, 16);
    assert(p.subrange(0, 16) =~= p);
}

/// NAV-TIMELS (0x01 0x26): leap second event information.
#[derive(Debug, Clone, Copy)]
pub struct TimeLs {
    pub i_tow: u32,
    pub version: u8,
    pub res1: [u8; 3],
    pub src_of_cur_ls: u8,
    pub cur_ls: i8,
    pub src_of_ls_change: u8,
    pub ls_change: i8,
    pub time_to_ls_event: i32,
    pub date_of_ls_gps_wn: u16,
    pub date_of_ls_gps_dn: u16,
    pub res2: [u8; 3],
    pub valid: u8,
}

impl TimeLs {
    #[verifier::opaque]
    pub open spec fn spec_payload(&self) -> Seq<u8> {
        u32_bytes(self.i_tow as nat)
            + seq![self.version]
            + seq![self.res1@[0]]
            + seq![self.res1@[1]]
            + seq![self.res1@[2]]
            + seq![self.src_of_cur_ls]
            + seq![self.cur_ls as u8]
            + seq![self.src_of_ls_change]
            + seq![self.ls_change as u8]
            + i32_bytes(self.time_to_ls_event)
            + u16_bytes(self.date_of_ls_gps_wn as nat)
            + u16_bytes(self.date_of_ls_gps_dn as nat)
            + seq![self.res2@[0]]
            + seq![self.res2@[1]]
            + seq![self.res2@[2]]
            + seq![self.valid]
    }

    /// Reads a payload of exactly 24 bytes.
    pub fn from_bytes(p: &[u8]) -> (r: TimeLs)
        requires
            p@.len() == 24,
        ensures
            r.spec_payload() == p@,
    {
        let i_tow = take_u32(p, 0);
        let version = take_u8(p, 4);
        let res1_0 = take_u8(p, 5);
        let res1_1 = take_u8(p, 6);
        let res1_2 = take_u8(p, 7);
        let src_of_cur_ls = take_u8(p, 8);
        let cur_ls = read_i8(p, 9);
        let src_of_ls_change = take_u8(p, 10);
        let ls_change = read_i8(p, 11);
        let time_to_ls_event = read_i32(p, 12);
        let date_of_ls_gps_wn = take_u16(p, 16);
        let date_of_ls_gps_dn = take_u16(p, 18);
        let res2_0 = take_u8(p, 20);
        let res2_1 = take_u8(p, 21);
        let res2_2 = take_u8(p, 22);
        let valid = take_u8(p, 23);
        let r = TimeLs {
            i_tow,
            version,
            res1: [res1_0, res1_1, res1_2],
            src_of_cur_ls,
            cur_ls,
            src_of_ls_change,
            ls_change,
            time_to_ls_event,
            date_of_ls_gps_wn,
            date_of_ls_gps_dn,
            res2: [res2_0, res2_1, res2_2],
            valid,
        };
        proof {
            lemma_timels_bytes(r, p@);
        }
        r
    }

    /// Appends the 24-byte payload.
    pub fn write_bytes(&self, out: &mut Vec<u8>)
        ensures
            final(out)@ == old(out)@ + self.spec_payload(),
    {
        let mut buf: Vec<u8> = Vec::new();
        write_u32(self.i_tow, &mut buf);
        buf.push(self.version);
        buf.push(self.res1[0]);
        buf.push(self.res1[1]);
        buf.push(self.res1[2]);
        buf.push(self.src_of_cur_ls);
        buf.push(self.cur_ls as u8);
        buf.push(self.src_of_ls_change);
        buf.push(self.ls_change as u8);
        write_i32(self.time_to_ls_event, &mut buf);
        write_u16(self.date_of_ls_gps_wn, &mut buf);
        write_u16(self.date_of_ls_gps_dn, &mut buf);
        buf.push(self.res2[0]);
        buf.push(self.res2[1]);
        buf.push(self.res2[2]);
        buf.push(self.valid);
        proof {
            reveal(TimeLs::spec_payload);
            assert(buf@ =~= self.spec_payload());
        }
        write_all(buf.as_slice(), out);
    }
}

proof fn lemma_timels_bytes(r: TimeLs, p: Seq<u8>)
    requires
        p.len() == 24,
        u32_bytes(r.i_tow as nat) == p.subrange(0, 4),
        seq![r.version] == p.subrange(4, 5),
        seq![r.res1@[0]] == p.subrange(5, 6),
        seq![r.res1@[1]] == p.subrange(6, 7),
        seq![r.res1@[2]] == p.subrange(7, 8),
        seq![r.src_of_cur_ls] == p.subrange(8, 9),
        seq![r.cur_ls as u8] == p.subrange(9, 10),
        seq![r.src_of_ls_change] == p.subrange(10, 11),
        seq![r.ls_change as u8] == p.subrange(11, 12),
        i32_bytes(r.time_to_ls_event) == p.subrange(12, 16),
        u16_bytes(r.date_of_ls_gps_wn as nat) == p.subrange(16, 18),
        u16_bytes(r.date_of_ls_gps_dn as nat) == p.subrange(18, 20),
        seq![r.res2@[0]] == p.subrange(20, 21),
        seq![r.res2@[1]] == p.subrange(21, 22),
        seq![r.res2@[2]] == p.subrange(22, 23),
        seq![r.valid] == p.subrange(23, 24),
    ensures
        r.spec_payload() == p,
{
    reveal(TimeLs::spec_payload);
    assert(p.subrange(0, 0) =~= Seq::<u8>::empty());
    lemma_extend(p, Seq::empty(), u32_bytes(r.i_tow as nat), 0, 4);
    assert(Seq::<u8>::empty() + u32_bytes(r.i_tow as nat) =~= u32_bytes(r.i_tow as nat));
    lemma_extend(p, u32_bytes(r.i_tow as nat), seq![r.version], 4, 5);
    lemma_extend(p, u32_bytes(r.i_tow as nat) + seq![r.version], seq![r.res1@[0]], 5, 6);
    lemma_extend(p, u32_bytes(r.i_tow as nat) + seq![r.version] + seq![r.res1@[0]], seq![r.res1@[1]], 6, 7);
    lemma_extend(p, u32_bytes(r.i_tow as nat) + seq![r.version] + seq![r.res1@[0]] + seq![r.res1@[1]], seq![r.res1@[2]], 7, 8);
    lemma_extend(p, u32_bytes(r.i_tow as nat) + seq![r.version] + seq![r.res1@[0]] + seq![r.res1@[1]] + seq![r.res1@[2]], seq![r.src_of_cur_ls], 8, 9);
    lemma_extend(p, u32_bytes(r.i_tow as nat) + seq![r.version] + seq![r.res1@[0]] + seq![r.res1@[1]] + seq![r.res1@[2]] + seq![r.src_of_cur_ls], seq![r.cur_ls as u8], 9, 10);
    lemma_extend(p, u32_bytes(r.i_tow as nat) + seq![r.version] + seq![r.res1@[0]] + seq![r.res1@[1]] + seq![r.res1@[2]] + seq![r.src_of_cur_ls] + seq![r.cur_ls as u8], seq![r.src_of_ls_change], 10, 11);
    lemma_extend(p, u32_bytes(r.i_tow as nat) + seq![r.version] + seq![r.res1@[0]] + seq![r.res1@[1]] + seq![r.res1@[2]] + seq![r.src_of_cur_ls] + seq![r.cur_ls as u8] + seq![r.src_of_ls_change], seq![r.ls_change as u8], 11, 12);
    lemma_extend(p, u32_bytes(r.i_tow as nat) + seq![r.version] + seq![r.res1@[0]] + seq![r.res1@[1]] + seq![r.res1@[2]] + seq![r.src_of_cur_ls] + seq![r.cur_ls as u8] + seq![r.src_of_ls_change] + seq![r.ls_change as u8], i32_bytes(r.time_to_ls_event), 12, 16);
    lemma_extend(p, u32_bytes(r.i_tow as nat) + seq![r.version] + seq![r.res1@[0]] + seq![r.res1@[1]] + seq![r.res1@[2]] + seq![r.src_of_cur_ls] + seq![r.cur_ls as u8] + seq![r.src_of_ls_change] + seq![r.ls_change as u8] + i32_bytes(r.time_to_ls_event), u16_bytes(r.date_of_ls_gps_wn as nat), 16, 18);
    lemma_extend(p, u32_bytes(r.i_tow as nat) + seq![r.version] + seq![r.res1@[0]] + seq![r.res1@[1]] + seq![r.res1@[2]] + seq![r.src_of_cur_ls] + seq![r.cur_ls as u8] + seq![r.src_of_ls_change] + seq![r.ls_change as u8] + i32_bytes(r.time_to_ls_event) + u16_bytes(r.date_of_ls_gps_wn as nat), u16_bytes(r.date_of_ls_gps_dn as nat), 18, 20);
    lemma_extend(p, u32_bytes(r.i_tow as nat) + seq![r.version] + seq![r.res1@[0]] + seq![r.res1@[1]] + seq![r.res1@[2]] + seq![r.src_of_cur_ls] + seq![r.cur_ls as u8] + seq![r.src_of_ls_change] + seq![r.ls_change as u8] + i32_bytes(r.time_to_ls_event) + u16_bytes(r.date_of_ls_gps_wn as nat) + u16_bytes(r.date_of_ls_gps_dn as nat), seq![r.res2@[0]], 20, 21);
    lemma_extend(p, u32_bytes(r.i_tow as nat) + seq![r.version] + seq![r.res1@[0]] + seq![r.res1@[1]] + seq![r.res1@[2]] + seq![r.src_of_cur_ls] + seq![r.cur_ls as u8] + seq![r.src_of_ls_change] + seq![r.ls_change as u8] + i32_bytes(r.time_to_ls_event) + u16_bytes(r.date_of_ls_gps_wn as nat) + u16_bytes(r.date_of_ls_gps_dn as nat) + seq![r.res2@[0]], seq![r.res2@[1]], 21, 22);
    lemma_extend(p, u32_bytes(r.i_tow as nat) + seq![r.version] + seq![r.res1@[0]] + seq![r.res1@[1]] + seq![r.res1@[2]] + seq![r.src_of_cur_ls] + seq![r.cur_ls as u8] + seq![r.src_of_ls_change] + seq![r.ls_change as u8] + i32_bytes(r.time_to_ls_event) + u16_bytes(r.date_of_ls_gps_wn as nat) + u16_bytes(r.date_of_ls_gps_dn as nat) + seq![r.res2@[0]] + seq![r.res2@[1]], seq![r.res2@[2]], 22, 23);
    lemma_extend(p, u32_bytes(r.i_tow as nat) + seq![r.version] + seq![r.res1@[0]] + seq![r.res1@[1]] + seq![r.res1@[2]] + seq![r.src_of_cur_ls] + seq![r.cur_ls as u8] + seq![r.src_of_ls_change] + seq![r.ls_change as u8] + i32_bytes(r.time_to_ls_event) + u16_bytes(r.date_of_ls_gps_wn as nat) + u16_bytes(r.date_of_ls_gps_dn as nat) + seq![r.res2@[0]] + seq![r.res2@[1]] + seq![r.res2@[2]], seq![r.valid], 23, 24);
    assert(p.subrange(0, 24) =~= p);
}

/// NAV-VELECEF (0x01 0x11): velocity in ECEF coordinates.
#[derive(Debug, Clone, Copy)]
pub struct Velecef {
    pub i_tow: u32,
    pub ecef_vx: i32,
    pub ecef_vy: i32,
    pub ecef_vz: i32,
    pub s_acc: u32,
}

impl Velecef {
    #[verifier::opaque]
    pub open spec fn spec_payload(&self) -> Seq<u8> {
        u32_bytes(self.i_tow as nat)
            + i32_bytes(self.ecef_vx)
            + i32_bytes(self.ecef_vy)
            + i32_bytes(self.ecef_vz)
            + u32_bytes(self.s_acc as nat)
    }

    /// Reads a payload of exactly 20 bytes.
    pub fn from_bytes(p: &[u8]) -> (r: Velecef)
        requires
            p@.len() == 20,
        ensures
            r.spec_payload() == p@,
    {
        let i_tow = take_u32(p, 0);
        let ecef_vx = read_i32(p, 4);
        let ecef_vy = read_i32(p, 8);
        let ecef_vz = read_i32(p, 12);
        let s_acc = take_u32(p, 16);
        let r = Velecef {
            i_tow,
            ecef_vx,
            ecef_vy,
            ecef_vz,
            s_acc,
        };
        proof {
            lemma_velecef_bytes(r, p@);
        }
        r
    }

    /// Appends the 20-byte payload.
    pub fn write_bytes(&self, out: &mut Vec<u8>)
        ensures
            final(out)@ == old(out)@ + self.spec_payload(),
    {
        let mut buf: Vec<u8> = Vec::new();
        write_u32(self.i_tow, &mut buf);
        write_i32(self.ecef_vx, &mut buf);
        write_i32(self.ecef_vy, &mut buf);
        write_i32(self.ecef_vz, &mut buf);
        write_u32(self.s_acc, &mut buf);
        proof {
            reveal(Velecef::spec_payload);
            assert(buf@ =~= self.spec_payload());
        }
        write_all(buf.as_slice(), out);
    }
}

proof fn lemma_velecef_bytes(r: Velecef, p: Seq<u8>)
    requires
        p.len() == 20,
        u32_bytes(r.i_tow as nat) == p.subrange(0, 4),
        i32_bytes(r.ecef_vx) == p.subrange(4, 8),
        i32_bytes(r.ecef_vy) == p.subrange(8, 12),
        i32_bytes(r.ecef_vz) == p.subrange(12, 16),
        u32_bytes(r.s_acc as nat) == p.subrange(16, 20),
    ensures
        r.spec_payload() == p,
{
    reveal(Velecef::spec_payload);
    assert(p.subrange(0, 0) =~= Seq::<u8>::empty());
    lemma_extend(p, Seq::empty(), u32_bytes(r.i_tow as nat), 0, 4);
    assert(Seq::<u8>::empty() + u32_bytes(r.i_tow as nat) =~= u32_bytes(r.i_tow as nat));
    lemma_extend(p, u32_bytes(r.i_tow as nat), i32_bytes(r.ecef_vx), 4, 8);
    lemma_extend(p, u32_bytes(r.i_tow as nat) + i32_bytes(r.ecef_vx), i32_bytes(r.ecef_vy), 8, 12);
    lemma_extend(p, u32_bytes(r.i_tow as nat) + i32_bytes(r.ecef_vx) + i32_bytes(r.ecef_vy), i32_bytes(r.ecef_vz), 12, 16);
    lemma_extend(p, u32_bytes(r.i_tow as nat) + i32_bytes(r.ecef_vx) + i32_bytes(r.ecef_vy) + i32_bytes(r.ecef_vz), u32_bytes(r.s_acc as nat), 16, 20);
    assert(p.subrange(0, 20) =~= p);
}

/// One satellite of a NAV-SAT report (12 bytes).
#[derive(Debug, Clone, Copy)]
pub struct Satellite {
    pub gnss_id: u8,
    pub sv_id: u8,
    pub cno: u8,
    pub elev: i8,
    pub azim: i16,
    pub pr_res: i16,
    pub flags: u32,
}

impl Satellite {
    #[verifier::opaque]
    pub open spec fn spec_payload(&self) -> Seq<u8> {
        seq![self.gnss_id]
            + seq![self.sv_id]
            + seq![self.cno]
            + seq![self.elev as u8]
            + i16_bytes(self.azim)
            + i16_bytes(self.pr_res)
            + u32_bytes(self.flags as nat)
    }

    /// Reads a payload of exactly 12 bytes.
    pub fn from_bytes(p: &[u8]) -> (r: Satellite)
        requires
            p@.len() == 12,
        ensures
            r.spec_payload() == p@,
    {
        let gnss_id = take_u8(p, 0);
        let sv_id = take_u8(p, 1);
        let cno = take_u8(p, 2);
        let elev = read_i8(p, 3);
        let azim = read_i16(p, 4);
        let pr_res = read_i16(p, 6);
        let flags = take_u32(p, 8);
        let r = Satellite {
            gnss_id,
            sv_id,
            cno,
            elev,
            azim,
            pr_res,
            flags,
        };
        proof {
            lemma_satellite_bytes(r, p@);
        }
        r
    }

    /// Appends the 12-byte payload.
    pub fn write_bytes(&self, out: &mut Vec<u8>)
        ensures
            final(out)@ == old(out)@ + self.spec_payload(),
    {
        let mut buf: Vec<u8> = Vec::new();
        buf.push(self.gnss_id);
        buf.push(self.sv_id);
        buf.push(self.cno);
        buf.push(self.elev as u8);
        write_i16(self.azim, &mut buf);
        write_i16(self.pr_res, &mut buf);
        write_u32(self.flags, &mut buf);
        proof {
            reveal(Satellite::spec_payload);
            assert(buf@ =~= self.spec_payload());
        }
        write_all(buf.as_slice(), out);
    }
}

proof fn lemma_satellite_bytes(r: Satellite, p: Seq<u8>)
    requires
        p.len() == 12,
        seq![r.gnss_id] == p.subrange(0, 1),
        seq![r.sv_id] == p.subrange(1, 2),
        seq![r.cno] == p.subrange(2, 3),
        seq![r.elev as u8] == p.subrange(3, 4),
        i16_bytes(r.azim) == p.subrange(4, 6),
        i16_bytes(r.pr_res) == p.subrange(6, 8),
        u32_bytes(r.flags as nat) == p.subrange(8, 12),
    ensures
        r.spec_payload() == p,
{
    reveal(Satellite::spec_payload);
    assert(p.subrange(0, 0) =~= Seq::<u8>::empty());
    lemma_extend(p, Seq::empty(), seq![r.gnss_id], 0, 1);
    assert(Seq::<u8>::empty() + seq![r.gnss_id] =~= seq![r.gnss_id]);
    lemma_extend(p, seq![r.gnss_id], seq![r.sv_id], 1, 2);
    lemma_extend(p, seq![r.gnss_id] + seq![r.sv_id], seq![r.cno], 2, 3);
    lemma_extend(p, seq![r.gnss_id] + seq![r.sv_id] + seq![r.cno], seq![r.elev as u8], 3, 4);
    lemma_extend(p, seq![r.gnss_id] + seq![r.sv_id] + seq![r.cno] + seq![r.elev as u8], i16_bytes(r.azim), 4, 6);
    lemma_extend(p, seq![r.gnss_id] + seq![r.sv_id] + seq![r.cno] + seq![r.elev as u8] + i16_bytes(r.azim), i16_bytes(r.pr_res), 6, 8);
    lemma_extend(p, seq![r.gnss_id] + seq![r.sv_id] + seq![r.cno] + seq![r.elev as u8] + i16_bytes(r.azim) + i16_bytes(r.pr_res), u32_bytes(r.flags as nat), 8, 12);
    assert(p.subrange(0, 12) =~= p);
}

/// Traffic and error counters of one port, as MON-IO reports them (20 bytes).
#[derive(Debug, Clone, Copy)]
pub struct IoBlock {
    pub rx_bytes: u32,
    pub tx_bytes: u32,
    pub parity_errs: u16,
    pub framing_errs: u16,
    pub overrun_errs: u16,
    pub break_cond: u16,
    pub res: [u8; 4],
}

impl IoBlock {
    #[verifier::opaque]
    pub open spec fn spec_payload(&self) -> Seq<u8> {
        u32_bytes(self.rx_bytes as nat)
            + u32_bytes(self.tx_bytes as nat)
            + u16_bytes(self.parity_errs as nat)
            + u16_bytes(self.framing_errs as nat)
            + u16_bytes(self.overrun_errs as nat)
            + u16_bytes(self.break_cond as nat)
            + seq![self.res@[0]]
            + seq![self.res@[1]]
            + seq![self.res@[2]]
            + seq![self.res@[3]]
    }

    /// Reads a payload of exactly 20 bytes.
    pub fn from_bytes(p: &[u8]) -> (r: IoBlock)
        requires
            p@.len() == 20,
        ensures
            r.spec_payload() == p@,
    {
        let rx_bytes = take_u32(p, 0);
        let tx_bytes = take_u32(p, 4);
        let parity_errs = take_u16(p, 8);
        let framing_errs = take_u16(p, 10);
        let overrun_errs = take_u16(p, 12);
        let break_cond = take_u16(p, 14);
        let res_0 = take_u8(p, 16);
        let res_1 = take_u8(p, 17);
        let res_2 = take_u8(p, 18);
        let res_3 = take_u8(p, 19);
        let r = IoBlock {
            rx_bytes,
            tx_bytes,
            parity_errs,
            framing_errs,
            overrun_errs,
            break_cond,
            res: [res_0, res_1, res_2, res_3],
        };
        proof {
            lemma_ioblock_bytes(r, p@);
        }
        r
    }

    /// Appends the 20-byte payload.
    pub fn write_bytes(&self, out: &mut Vec<u8>)
        ensures
            final(out)@ == old(out)@ + self.spec_payload(),
    {
        let mut buf: Vec<u8> = Vec::new();
        write_u32(self.rx_bytes, &mut buf);
        write_u32(self.tx_bytes, &mut buf);
        write_u16(self.parity_errs, &mut buf);
        write_u16(self.framing_errs, &mut buf);
        write_u16(self.overrun_errs, &mut buf);
        write_u16(self.break_cond, &mut buf);
        buf.push(self.res[0]);
        buf.push(self.res[1]);
        buf.push(self.res[2]);
        buf.push(self.res[3]);
        proof {
            reveal(IoBlock::spec_payload);
            assert(buf@ =~= self.spec_payload());
        }
        write_all(buf.as_slice(), out);
    }
}

proof fn lemma_ioblock_bytes(r: IoBlock, p: Seq<u8>)
    requires
        p.len() == 20,
        u32_bytes(r.rx_bytes as nat) == p.subrange(0, 4),
        u32_bytes(r.tx_bytes as nat) == p.subrange(4, 8),
        u16_bytes(r.parity_errs as nat) == p.subrange(8, 10),
        u16_bytes(r.framing_errs as nat) == p.subrange(10, 12),
        u16_bytes(r.overrun_errs as nat) == p.subrange(12, 14),
        u16_bytes(r.break_cond as nat) == p.subrange(14, 16),
        seq![r.res@[0]] == p.subrange(16, 17),
        seq![r.res@[1]] == p.subrange(17, 18),
        seq![r.res@[2]] == p.subrange(18, 19),
        seq![r.res@[3]] == p.subrange(19, 20),
    ensures
        r.spec_payload() == p,
{
    reveal(IoBlock::spec_payload);
    assert(p.subrange(0, 0) =~= Seq::<u8>::empty());
    lemma_extend(p, Seq::empty(), u32_bytes(r.rx_bytes as nat), 0, 4);
    assert(Seq::<u8>::empty() + u32_bytes(r.rx_bytes as nat) =~= u32_bytes(r.rx_bytes as nat));
    lemma_extend(p, u32_bytes(r.rx_bytes as nat), u32_bytes(r.tx_bytes as nat), 4, 8);
    lemma_extend(p, u32_bytes(r.rx_bytes as nat) + u32_bytes(r.tx_bytes as nat), u16_bytes(r.parity_errs as nat), 8, 10);
    lemma_extend(p, u32_bytes(r.rx_bytes as nat) + u32_bytes(r.tx_bytes as nat) + u16_bytes(r.parity_errs as nat), u16_bytes(r.framing_errs as nat), 10, 12);
    lemma_extend(p, u32_bytes(r.rx_bytes as nat) + u32_bytes(r.tx_bytes as nat) + u16_bytes(r.parity_errs as nat) + u16_bytes(r.framing_errs as nat), u16_bytes(r.overrun_errs as nat), 12, 14);
    lemma_extend(p, u32_bytes(r.rx_bytes as nat) + u32_bytes(r.tx_bytes as nat) + u16_bytes(r.parity_errs as nat) + u16_bytes(r.framing_errs as nat) + u16_bytes(r.overrun_errs as nat), u16_bytes(r.break_cond as nat), 14, 16);
    lemma_extend(p, u32_bytes(r.rx_bytes as nat) + u32_bytes(r.tx_bytes as nat) + u16_bytes(r.parity_errs as nat) + u16_bytes(r.framing_errs as nat) + u16_bytes(r.overrun_errs as nat) + u16_bytes(r.break_cond as nat), seq![r.res@[0]], 16, 17);
    lemma_extend(p, u32_bytes(r.rx_bytes as nat) + u32_bytes(r.tx_bytes as nat) + u16_bytes(r.parity_errs as nat) + u16_bytes(r.framing_errs as nat) + u16_bytes(r.overrun_errs as nat) + u16_bytes(r.break_cond as nat) + seq![r.res@[0]], seq![r.res@[1]], 17, 18);
    lemma_extend(p, u32_bytes(r.rx_bytes as nat) + u32_bytes(r.tx_bytes as nat) + u16_bytes(r.parity_errs as nat) + u16_bytes(r.framing_errs as nat) + u16_bytes(r.overrun_errs as nat) + u16_bytes(r.break_cond as nat) + seq![r.res@[0]] + seq![r.res@[1]], seq![r.res@[2]], 18, 19);
    lemma_extend(p, u32_bytes(r.rx_bytes as nat) + u32_bytes(r.tx_bytes as nat) + u16_bytes(r.parity_errs as nat) + u16_bytes(r.framing_errs as nat) + u16_bytes(r.overrun_errs as nat) + u16_bytes(r.break_cond as nat) + seq![r.res@[0]] + seq![r.res@[1]] + seq![r.res@[2]], seq![r.res@[3]], 19, 20);
    assert(p.subrange(0, 20) =~= p);
}

/// State of one RF band, as MON-RF reports it (24 bytes).
#[derive(Debug, Clone, Copy)]
pub struct RfBlock {
    pub block_id: u8,
    pub flags: u8,
    pub ant_status: u8,
    pub ant_power: u8,
    pub post_status: u32,
    pub res1: [u8; 4],
    pub noise_per_ms: u16,
    pub agc_cnt: u16,
    pub jam_ind: u8,
    pub ofs_i: i8,
    pub mag_i: u8,
    pub ofs_q: i8,
    pub mag_q: u8,
    pub res2: [u8; 3],
}

impl RfBlock {
    #[verifier::opaque]
    pub open spec fn spec_payload(&self) -> Seq<u8> {
        seq![self.block_id]
            + seq![self.flags]
            + seq![self.ant_status]
            + seq![self.ant_power]
            + u32_bytes(self.post_status as nat)
            + seq![self.res1@[0]]
            + seq![self.res1@[1]]
            + seq![self.res1@[2]]
            + seq![self.res1@[3]]
            + u16_bytes(self.noise_per_ms as nat)
            + u16_bytes(self.agc_cnt as nat)
            + seq![self.jam_ind]
            + seq![self.ofs_i as u8]
            + seq![self.mag_i]
            + seq![self.ofs_q as u8]
            + seq![self.mag_q]
            + seq![self.res2@[0]]
            + seq![self.res2@[1]]
            + seq![self.res2@[2]]
    }

    /// Reads a payload of exactly 24 bytes.
    pub fn from_bytes(p: &[u8]) -> (r: RfBlock)
        requires
            p@.len() == 24,
        ensures
            r.spec_payload() == p@,
    {
        let block_id = take_u8(p, 0);
        let flags = take_u8(p, 1);
        let ant_status = take_u8(p, 2);
        let ant_power = take_u8(p, 3);
        let post_status = take_u32(p, 4);
        let res1_0 = take_u8(p, 8);
        let res1_1 = take_u8(p, 9);
        let res1_2 = take_u8(p, 10);
        let res1_3 = take_u8(p, 11);
        let noise_per_ms = take_u16(p, 12);
        let agc_cnt = take_u16(p, 14);
        let jam_ind = take_u8(p, 16);
        let ofs_i = read_i8(p, 17);
        let mag_i = take_u8(p, 18);
        let ofs_q = read_i8(p, 19);
        let mag_q = take_u8(p, 20);
        let res2_0 = take_u8(p, 21);
        let res2_1 = take_u8(p, 22);
        let res2_2 = take_u8(p, 23);
        let r = RfBlock {
            block_id,
            flags,
            ant_status,
            ant_power,
            post_status,
            res1: [res1_0, res1_1, res1_2, res1_3],
            noise_per_ms,
            agc_cnt,
            jam_ind,
            ofs_i,
            mag_i,
            ofs_q,
            mag_q,
            res2: [res2_0, res2_1, res2_2],
        };
        proof {
            lemma_rfblock_bytes(r, p@);
        }
        r
    }

    /// Appends the 24-byte payload.
    pub fn write_bytes(&self, out: &mut Vec<u8>)
        ensures
            final(out)@ == old(out)@ + self.spec_payload(),
    {
        let mut buf: Vec<u8> = Vec::new();
        buf.push(self.block_id);
        buf.push(self.flags);
        buf.push(self.ant_status);
        buf.push(self.ant_power);
        write_u32(self.post_status, &mut buf);
        buf.push(self.res1[0]);
        buf.push(self.res1[1]);
        buf.push(self.res1[2]);
        buf.push(self.res1[3]);
        write_u16(self.noise_per_ms, &mut buf);
        write_u16(self.agc_cnt, &mut buf);
        buf.push(self.jam_ind);
        buf.push(self.ofs_i as u8);
        buf.push(self.mag_i);
        buf.push(self.ofs_q as u8);
        buf.push(self.mag_q);
        buf.push(self.res2[0]);
        buf.push(self.res2[1]);
        buf.push(self.res2[2]);
        proof {
            reveal(RfBlock::spec_payload);
            assert(buf@ =~= self.spec_payload());
        }
        write_all(buf.as_slice(), out);
    }
}

proof fn lemma_rfblock_bytes(r: RfBlock, p: Seq<u8>)
    requires
        p.len() == 24,
        seq![r.block_id] == p.subrange(0, 1),
        seq![r.flags] == p.subrange(1, 2),
        seq![r.ant_status] == p.subrange(2, 3),
        seq![r.ant_power] == p.subrange(3, 4),
        u32_bytes(r.post_status as nat) == p.subrange(4, 8),
        seq![r.res1@[0]] == p.subrange(8, 9),
        seq![r.res1@[1]] == p.subrange(9, 10),
        seq![r.res1@[2]] == p.subrange(10, 11),
        seq![r.res1@[3]] == p.subrange(11, 12),
        u16_bytes(r.noise_per_ms as nat) == p.subrange(12, 14),
        u16_bytes(r.agc_cnt as nat) == p.subrange(14, 16),
        seq![r.jam_ind] == p.subrange(16, 17),
        seq![r.ofs_i as u8] == p.subrange(17, 18),
        seq![r.mag_i] == p.subrange(18, 19),
        seq![r.ofs_q as u8] == p.subrange(19, 20),
        seq![r.mag_q] == p.subrange(20, 21),
        seq![r.res2@[0]] == p.subrange(21, 22),
        seq![r.res2@[1]] == p.subrange(22, 23),
        seq![r.res2@[2]] == p.subrange(23, 24),
    ensures
        r.spec_payload() == p,
{
    reveal(RfBlock::spec_payload);
    assert(p.subrange(0, 0) =~= Seq::<u8>::empty());
    lemma_extend(p, Seq::empty(), seq![r.block_id], 0, 1);
    assert(Seq::<u8>::empty() + seq![r.block_id] =~= seq![r.block_id]);
    lemma_extend(p, seq![r.block_id], seq![r.flags], 1, 2);
    lemma_extend(p, seq![r.block_id] + seq![r.flags], seq![r.ant_status], 2, 3);
    lemma_extend(p, seq![r.block_id] + seq![r.flags] + seq![r.ant_status], seq![r.ant_power], 3, 4);
    lemma_extend(p, seq![r.block_id] + seq![r.flags] + seq![r.ant_status] + seq![r.ant_power], u32_bytes(r.post_status as nat), 4, 8);
    lemma_extend(p, seq![r.block_id] + seq![r.flags] + seq![r.ant_status] + seq![r.ant_power] + u32_bytes(r.post_status as nat), seq![r.res1@[0]], 8, 9);
    lemma_extend(p, seq![r.block_id] + seq![r.flags] + seq![r.ant_status] + seq![r.ant_power] + u32_bytes(r.post_status as nat) + seq![r.res1@[0]], seq![r.res1@[1]], 9, 10);
    lemma_extend(p, seq![r.block_id] + seq![r.flags] + seq![r.ant_status] + seq![r.ant_power] + u32_bytes(r.post_status as nat) + seq![r.res1@[0]] + seq![r.res1@[1]], seq![r.res1@[2]], 10, 11);
    lemma_extend(p, seq![r.block_id] + seq![r.flags] + seq![r.ant_status] + seq![r.ant_power] + u32_bytes(r.post_status as nat) + seq![r.res1@[0]] + seq![r.res1@[1]] + seq![r.res1@[2]], seq![r.res1@[3]], 11, 12);
    lemma_extend(p, seq![r.block_id] + seq![r.flags] + seq![r.ant_status] + seq![r.ant_power] + u32_bytes(r.post_status as nat) + seq![r.res1@[0]] + seq![r.res1@[1]] + seq![r.res1@[2]] + seq![r.res1@[3]], u16_bytes(r.noise_per_ms as nat), 12, 14);
    lemma_extend(p, seq![r.block_id] + seq![r.flags] + seq![r.ant_status] + seq![r.ant_power] + u32_bytes(r.post_status as nat) + seq![r.res1@[0]] + seq![r.res1@[1]] + seq![r.res1@[2]] + seq![r.res1@[3]] + u16_bytes(r.noise_per_ms as nat), u16_bytes(r.agc_cnt as nat), 14, 16);
    lemma_extend(p, seq![r.block_id] + seq![r.flags] + seq![r.ant_status] + seq![r.ant_power] + u32_bytes(r.post_status as nat) + seq![r.res1@[0]] + seq![r.res1@[1]] + seq![r.res1@[2]] + seq![r.res1@[3]] + u16_bytes(r.noise_per_ms as nat) + u16_bytes(r.agc_cnt as nat), seq![r.jam_ind], 16, 17);
    lemma_extend(p, seq![r.block_id] + seq![r.flags] + seq![r.ant_status] + seq![r.ant_power] + u32_bytes(r.post_status as nat) + seq![r.res1@[0]] + seq![r.res1@[1]] + seq![r.res1@[2]] + seq![r.res1@[3]] + u16_bytes(r.noise_per_ms as nat) + u16_bytes(r.agc_cnt as nat) + seq![r.jam_ind], seq![r.ofs_i as u8], 17, 18);
    lemma_extend(p, seq![r.block_id] + seq![r.flags] + seq![r.ant_status] + seq![r.ant_power] + u32_bytes(r.post_status as nat) + seq![r.res1@[0]] + seq![r.res1@[1]] + seq![r.res1@[2]] + seq![r.res1@[3]] + u16_bytes(r.noise_per_ms as nat) + u16_bytes(r.agc_cnt as nat) + seq![r.jam_ind] + seq![r.ofs_i as u8], seq![r.mag_i], 18, 19);
    lemma_extend(p, seq![r.block_id] + seq![r.flags] + seq![r.ant_status] + seq![r.ant_power] + u32_bytes(r.post_status as nat) + seq![r.res1@[0]] + seq![r.res1@[1]] + seq![r.res1@[2]] + seq![r.res1@[3]] + u16_bytes(r.noise_per_ms as nat) + u16_bytes(r.agc_cnt as nat) + seq![r.jam_ind] + seq![r.ofs_i as u8] + seq![r.mag_i], seq![r.ofs_q as u8], 19, 20);
    lemma_extend(p, seq![r.block_id] + seq![r.flags] + seq![r.ant_status] + seq![r.ant_power] + u32_bytes(r.post_status as nat) + seq![r.res1@[0]] + seq![r.res1@[1]] + seq![r.res1@[2]] + seq![r.res1@[3]] + u16_bytes(r.noise_per_ms as nat) + u16_bytes(r.agc_cnt as nat) + seq![r.jam_ind] + seq![r.ofs_i as u8] + seq![r.mag_i] + seq![r.ofs_q as u8], seq![r.mag_q], 20, 21);
    lemma_extend(p, seq![r.block_id] + seq![r.flags] + seq![r.ant_status] + seq![r.ant_power] + u32_bytes(r.post_status as nat) + seq![r.res1@[0]] + seq![r.res1@[1]] + seq![r.res1@[2]] + seq![r.res1@[3]] + u16_bytes(r.noise_per_ms as nat) + u16_bytes(r.agc_cnt as nat) + seq![r.jam_ind] + seq![r.ofs_i as u8] + seq![r.mag_i] + seq![r.ofs_q as u8] + seq![r.mag_q], seq![r.res2@[0]], 21, 22);
    lemma_extend(p, seq![r.block_id] + seq![r.flags] + seq![r.ant_status] + seq![r.ant_power] + u32_bytes(r.post_status as nat) + seq![r.res1@[0]] + seq![r.res1@[1]] + seq![r.res1@[2]] + seq![r.res1@[3]] + u16_bytes(r.noise_per_ms as nat) + u16_bytes(r.agc_cnt as nat) + seq![r.jam_ind] + seq![r.ofs_i as u8] + seq![r.mag_i] + seq![r.ofs_q as u8] + seq![r.mag_q] + seq![r.res2@[0]], seq![r.res2@[1]], 22, 23);
    lemma_extend(p, seq![r.block_id] + seq![r.flags] + seq![r.ant_status] + seq![r.ant_power] + u32_bytes(r.post_status as nat) + seq![r.res1@[0]] + seq![r.res1@[1]] + seq![r.res1@[2]] + seq![r.res1@[3]] + u16_bytes(r.noise_per_ms as nat) + u16_bytes(r.agc_cnt as nat) + seq![r.jam_ind] + seq![r.ofs_i as u8] + seq![r.mag_i] + seq![r.ofs_q as u8] + seq![r.mag_q] + seq![r.res2@[0]] + seq![r.res2@[1]], seq![r.res2@[2]], 23, 24);
    assert(p.subrange(0, 24) =~= p);
}

/// RXM-RTCM (0x02 0x32): status of one RTCM message the receiver took in.
/// `flags` holds `RtcmFlags` bits.
#[derive(Debug, Clone, Copy)]
pub struct RxmRtcm {
    pub version: u8,
    pub flags: u8,
    pub res1: [u8; 2],
    pub ref_stations: u16,
    pub msg_type: u16,
}

impl RxmRtcm {
    #[verifier::opaque]
    pub open spec fn spec_payload(&self) -> Seq<u8> {
        seq![self.version]
            + seq![self.flags]
            + seq![self.res1@[0]]
            + seq![self.res1@[1]]
            + u16_bytes(self.ref_stations as nat)
            + u16_bytes(self.msg_type as nat)
    }

    /// Reads a payload of exactly 8 bytes.
    pub fn from_bytes(p: &[u8]) -> (r: RxmRtcm)
        requires
            p@.len() == 8,
        ensures
            r.spec_payload() == p@,
    {
        let version = take_u8(p, 0);
        let flags = take_u8(p, 1);
        let res1_0 = take_u8(p, 2);
        let res1_1 = take_u8(p, 3);
        let ref_stations = take_u16(p, 4);
        let msg_type = take_u16(p, 6);
        let r = RxmRtcm {
            version,
            flags,
            res1: [res1_0, res1_1],
            ref_stations,
            msg_type,
        };
        proof {
            lemma_rxmrtcm_bytes(r, p@);
        }
        r
    }

    /// Appends the 8-byte payload.
    pub fn write_bytes(&self, out: &mut Vec<u8>)
        ensures
            final(out)@ == old(out)@ + self.spec_payload(),
    {
        let mut buf: Vec<u8> = Vec::new();
        buf.push(self.version);
        buf.push(self.flags);
        buf.push(self.res1[0]);
        buf.push(self.res1[1]);
        write_u16(self.ref_stations, &mut buf);
        write_u16(self.msg_type, &mut buf);
        proof {
            reveal(RxmRtcm::spec_payload);
            assert(buf@ =~= self.spec_payload());
        }
        write_all(buf.as_slice(), out);
    }
}

proof fn lemma_rxmrtcm_bytes(r: RxmRtcm, p: Seq<u8>)
    requires
        p.len() == 8,
        seq![r.version] == p.subrange(0, 1),
        seq![r.flags] == p.subrange(1, 2),
        seq![r.res1@[0]] == p.subrange(2, 3),
        seq![r.res1@[1]] == p.subrange(3, 4),
        u16_bytes(r.ref_stations as nat) == p.subrange(4, 6),
        u16_bytes(r.msg_type as nat) == p.subrange(6, 8),
    ensures
        r.spec_payload() == p,
{
    reveal(RxmRtcm::spec_payload);
    assert(p.subrange(0, 0) =~= Seq::<u8>::empty());
    lemma_extend(p, Seq::empty(), seq![r.version], 0, 1);
    assert(Seq::<u8>::empty() + seq![r.version] =~= seq![r.version]);
    lemma_extend(p, seq![r.version], seq![r.flags], 1, 2);
    lemma_extend(p, seq![r.version] + seq![r.flags], seq![r.res1@[0]], 2, 3);
    lemma_extend(p, seq![r.version] + seq![r.flags] + seq![r.res1@[0]], seq![r.res1@[1]], 3, 4);
    lemma_extend(p, seq![r.version] + seq![r.flags] + seq![r.res1@[0]] + seq![r.res1@[1]], u16_bytes(r.ref_stations as nat), 4, 6);
    lemma_extend(p, seq![r.version] + seq![r.flags] + seq![r.res1@[0]] + seq![r.res1@[1]] + u16_bytes(r.ref_stations as nat), u16_bytes(r.msg_type as nat), 6, 8);
    assert(p.subrange(0, 8) =~= p);
}

/// CFG-TMODE3 (0x06 0x71): time mode settings. `flags` is the packed
/// `TModeFlags` word.
#[derive(Debug, Clone, Copy)]
pub struct TMode3 {
    pub version: u8,
    pub res1: u8,
    pub flags: u16,
    pub ecefx_or_lat: i32,
    pub ecefy_or_lon: i32,
    pub ecefz_or_alt: i32,
    pub ecefx_or_lat_hp: i8,
    pub ecefy_or_lon_hp: i8,
    pub ecefz_or_alt_hp: i8,
    pub res2: u8,
    pub fixed_pos_acc: u32,
    pub svin_min_dur: u32,
    pub svin_accl_limit: u32,
    pub res3: [u8; 8],
}

impl TMode3 {
    #[verifier::opaque]
    pub open spec fn spec_payload(&self) -> Seq<u8> {
        seq![self.version]
            + seq![self.res1]
            + u16_bytes(self.flags as nat)
            + i32_bytes(self.ecefx_or_lat)
            + i32_bytes(self.ecefy_or_lon)
            + i32_bytes(self.ecefz_or_alt)
            + seq![self.ecefx_or_lat_hp as u8]
            + seq![self.ecefy_or_lon_hp as u8]
            + seq![self.ecefz_or_alt_hp as u8]
            + seq![self.res2]
            + u32_bytes(self.fixed_pos_acc as nat)
            + u32_bytes(self.svin_min_dur as nat)
            + u32_bytes(self.svin_accl_limit as nat)
            + seq![self.res3@[0]]
            + seq![self.res3@[1]]
            + seq![self.res3@[2]]
            + seq![self.res3@[3]]
            + seq![self.res3@[4]]
            + seq![self.res3@[5]]
            + seq![self.res3@[6]]
            + seq![self.res3@[7]]
    }

    /// Reads a payload of exactly 40 bytes.
    pub fn from_bytes(p: &[u8]) -> (r: TMode3)
        requires
            p@.len() == 40,
        ensures
            r.spec_payload() == p@,
    {
        let version = take_u8(p, 0);
        let res1 = take_u8(p, 1);
        let flags = take_u16(p, 2);
        let ecefx_or_lat = read_i32(p, 4);
        let ecefy_or_lon = read_i32(p, 8);
        let ecefz_or_alt = read_i32(p, 12);
        let ecefx_or_lat_hp = read_i8(p, 16);
        let ecefy_or_lon_hp = read_i8(p, 17);
        let ecefz_or_alt_hp = read_i8(p, 18);
        let res2 = take_u8(p, 19);
        let fixed_pos_acc = take_u32(p, 20);
        let svin_min_dur = take_u32(p, 24);
        let svin_accl_limit = take_u32(p, 28);
        let res3_0 = take_u8(p, 32);
        let res3_1 = take_u8(p, 33);
        let res3_2 = take_u8(p, 34);
        let res3_3 = take_u8(p, 35);
        let res3_4 = take_u8(p, 36);
        let res3_5 = take_u8(p, 37);
        let res3_6 = take_u8(p, 38);
        let res3_7 = take_u8(p, 39);
        let r = TMode3 {
            version,
            res1,
            flags,
            ecefx_or_lat,
            ecefy_or_lon,
            ecefz_or_alt,
            ecefx_or_lat_hp,
            ecefy_or_lon_hp,
            ecefz_or_alt_hp,
            res2,
            fixed_pos_acc,
            svin_min_dur,
            svin_accl_limit,
            res3: [res3_0, res3_1, res3_2, res3_3, res3_4, res3_5, res3_6, res3_7],
        };
        proof {
            lemma_tmode3_bytes(r, p@);
        }
        r
    }

    /// Appends the 40-byte payload.
    pub fn write_bytes(&self, out: &mut Vec<u8>)
        ensures
            final(out)@ == old(out)@ + self.spec_payload(),
    {
        let mut buf: Vec<u8> = Vec::new();
        buf.push(self.version);
        buf.push(self.res1);
        write_u16(self.flags, &mut buf);
        write_i32(self.ecefx_or_lat, &mut buf);
        write_i32(self.ecefy_or_lon, &mut buf);
        write_i32(self.ecefz_or_alt, &mut buf);
        buf.push(self.ecefx_or_lat_hp as u8);
        buf.push(self.ecefy_or_lon_hp as u8);
        buf.push(self.ecefz_or_alt_hp as u8);
        buf.push(self.res2);
        write_u32(self.fixed_pos_acc, &mut buf);
        write_u32(self.svin_min_dur, &mut buf);
        write_u32(self.svin_accl_limit, &mut buf);
        buf.push(self.res3[0]);
        buf.push(self.res3[1]);
        buf.push(self.res3[2]);
        buf.push(self.res3[3]);
        buf.push(self.res3[4]);
        buf.push(self.res3[5]);
        buf.push(self.res3[6]);
        buf.push(self.res3[7]);
        proof {
            reveal(TMode3::spec_payload);
            assert(buf@ =~= self.spec_payload());
        }
        write_all(buf.as_slice(), out);
    }
}

proof fn lemma_tmode3_bytes(r: TMode3, p: Seq<u8>)
    requires
        p.len() == 40,
        seq![r.version] == p.subrange(0, 1),
        seq![r.res1] == p.subrange(1, 2),
        u16_bytes(r.flags as nat) == p.subrange(2, 4),
        i32_bytes(r.ecefx_or_lat) == p.subrange(4, 8),
        i32_bytes(r.ecefy_or_lon) == p.subrange(8, 12),
        i32_bytes(r.ecefz_or_alt) == p.subrange(12, 16),
        seq![r.ecefx_or_lat_hp as u8] == p.subrange(16, 17),
        seq![r.ecefy_or_lon_hp as u8] == p.subrange(17, 18),
        seq![r.ecefz_or_alt_hp as u8] == p.subrange(18, 19),
        seq![r.res2] == p.subrange(19, 20),
        u32_bytes(r.fixed_pos_acc as nat) == p.subrange(20, 24),
        u32_bytes(r.svin_min_dur as nat) == p.subrange(24, 28),
        u32_bytes(r.svin_accl_limit as nat) == p.subrange(28, 32),
        seq![r.res3@[0]] == p.subrange(32, 33),
        seq![r.res3@[1]] == p.subrange(33, 34),
        seq![r.res3@[2]] == p.subrange(34, 35),
        seq![r.res3@[3]] == p.subrange(35, 36),
        seq![r.res3@[4]] == p.subrange(36, 37),
        seq![r.res3@[5]] == p.subrange(37, 38),
        seq![r.res3@[6]] == p.subrange(38, 39),
        seq![r.res3@[7]] == p.subrange(39, 40),
    ensures
        r.spec_payload() == p,
{
    reveal(TMode3::spec_payload);
    assert(p.subrange(0, 0) =~= Seq::<u8>::empty());
    lemma_extend(p, Seq::empty(), seq![r.version], 0, 1);
    assert(Seq::<u8>::empty() + seq![r.version] =~= seq![r.version]);
    lemma_extend(p, seq![r.version], seq![r.res1], 1, 2);
    lemma_extend(p, seq![r.version] + seq![r.res1], u16_bytes(r.flags as nat), 2, 4);
    lemma_extend(p, seq![r.version] + seq![r.res1] + u16_bytes(r.flags as nat), i32_bytes(r.ecefx_or_lat), 4, 8);
    lemma_extend(p, seq![r.version] + seq![r.res1] + u16_bytes(r.flags as nat) + i32_bytes(r.ecefx_or_lat), i32_bytes(r.ecefy_or_lon), 8, 12);
    lemma_extend(p, seq![r.version] + seq![r.res1] + u16_bytes(r.flags as nat) + i32_bytes(r.ecefx_or_lat) + i32_bytes(r.ecefy_or_lon), i32_bytes(r.ecefz_or_alt), 12, 16);
    lemma_extend(p, seq![r.version] + seq![r.res1] + u16_bytes(r.flags as nat) + i32_bytes(r.ecefx_or_lat) + i32_bytes(r.ecefy_or_lon) + i32_bytes(r.ecefz_or_alt), seq![r.ecefx_or_lat_hp as u8], 16, 17);
    lemma_extend(p, seq![r.version] + seq![r.res1] + u16_bytes(r.flags as nat) + i32_bytes(r.ecefx_or_lat) + i32_bytes(r.ecefy_or_lon) + i32_bytes(r.ecefz_or_alt) + seq![r.ecefx_or_lat_hp as u8], seq![r.ecefy_or_lon_hp as u8], 17, 18);
    lemma_extend(p, seq![r.version] + seq![r.res1] + u16_bytes(r.flags as nat) + i32_bytes(r.ecefx_or_lat) + i32_bytes(r.ecefy_or_lon) + i32_bytes(r.ecefz_or_alt) + seq![r.ecefx_or_lat_hp as u8] + seq![r.ecefy_or_lon_hp as u8], seq![r.ecefz_or_alt_hp as u8], 18, 19);
    lemma_extend(p, seq![r.version] + seq![r.res1] + u16_bytes(r.flags as nat) + i32_bytes(r.ecefx_or_lat) + i32_bytes(r.ecefy_or_lon) + i32_bytes(r.ecefz_or_alt) + seq![r.ecefx_or_lat_hp as u8] + seq![r.ecefy_or_lon_hp as u8] + seq![r.ecefz_or_alt_hp as u8], seq![r.res2], 19, 20);
    lemma_extend(p, seq![r.version] + seq![r.res1] + u16_bytes(r.flags as nat) + i32_bytes(r.ecefx_or_lat) + i32_bytes(r.ecefy_or_lon) + i32_bytes(r.ecefz_or_alt) + seq![r.ecefx_or_lat_hp as u8] + seq![r.ecefy_or_lon_hp as u8] + seq![r.ecefz_or_alt_hp as u8] + seq![r.res2], u32_bytes(r.fixed_pos_acc as nat), 20, 24);
    lemma_extend(p, seq![r.version] + seq![r.res1] + u16_bytes(r.flags as nat) + i32_bytes(r.ecefx_or_lat) + i32_bytes(r.ecefy_or_lon) + i32_bytes(r.ecefz_or_alt) + seq![r.ecefx_or_lat_hp as u8] + seq![r.ecefy_or_lon_hp as u8] + seq![r.ecefz_or_alt_hp as u8] + seq![r.res2] + u32_bytes(r.fixed_pos_acc as nat), u32_bytes(r.svin_min_dur as nat), 24, 28);
    lemma_extend(p, seq![r.version] + seq![r.res1] + u16_bytes(r.flags as nat) + i32_bytes(r.ecefx_or_lat) + i32_bytes(r.ecefy_or_lon) + i32_bytes(r.ecefz_or_alt) + seq![r.ecefx_or_lat_hp as u8] + seq![r.ecefy_or_lon_hp as u8] + seq![r.ecefz_or_alt_hp as u8] + seq![r.res2] + u32_bytes(r.fixed_pos_acc as nat) + u32_bytes(r.svin_min_dur as nat), u32_bytes(r.svin_accl_limit as nat), 28, 32);
    lemma_extend(p, seq![r.version] + seq![r.res1] + u16_bytes(r.flags as nat) + i32_bytes(r.ecefx_or_lat) + i32_bytes(r.ecefy_or_lon) + i32_bytes(r.ecefz_or_alt) + seq![r.ecefx_or_lat_hp as u8] + seq![r.ecefy_or_lon_hp as u8] + seq![r.ecefz_or_alt_hp as u8] + seq![r.res2] + u32_bytes(r.fixed_pos_acc as nat) + u32_bytes(r.svin_min_dur as nat) + u32_bytes(r.svin_accl_limit as nat), seq![r.res3@[0]], 32, 33);
    lemma_extend(p, seq![r.version] + seq![r.res1] + u16_bytes(r.flags as nat) + i32_bytes(r.ecefx_or_lat) + i32_bytes(r.ecefy_or_lon) + i32_bytes(r.ecefz_or_alt) + seq![r.ecefx_or_lat_hp as u8] + seq![r.ecefy_or_lon_hp as u8] + seq![r.ecefz_or_alt_hp as u8] + seq![r.res2] + u32_bytes(r.fixed_pos_acc as nat) + u32_bytes(r.svin_min_dur as nat) + u32_bytes(r.svin_accl_limit as nat) + seq![r.res3@[0]], seq![r.res3@[1]], 33, 34);
    lemma_extend(p, seq![r.version] + seq![r.res1] + u16_bytes(r.flags as nat) + i32_bytes(r.ecefx_or_lat) + i32_bytes(r.ecefy_or_lon) + i32_bytes(r.ecefz_or_alt) + seq![r.ecefx_or_lat_hp as u8] + seq![r.ecefy_or_lon_hp as u8] + seq![r.ecefz_or_alt_hp as u8] + seq![r.res2] + u32_bytes(r.fixed_pos_acc as nat) + u32_bytes(r.svin_min_dur as nat) + u32_bytes(r.svin_accl_limit as nat) + seq![r.res3@[0]] + seq![r.res3@[1]], seq![r.res3@[2]], 34, 35);
    lemma_extend(p, seq![r.version] + seq![r.res1] + u16_bytes(r.flags as nat) + i32_bytes(r.ecefx_or_lat) + i32_bytes(r.ecefy_or_lon) + i32_bytes(r.ecefz_or_alt) + seq![r.ecefx_or_lat_hp as u8] + seq![r.ecefy_or_lon_hp as u8] + seq![r.ecefz_or_alt_hp as u8] + seq![r.res2] + u32_bytes(r.fixed_pos_acc as nat) + u32_bytes(r.svin_min_dur as nat) + u32_bytes(r.svin_accl_limit as nat) + seq![r.res3@[0]] + seq![r.res3@[1]] + seq![r.res3@[2]], seq![r.res3@[3]], 35, 36);
    lemma_extend(p, seq![r.version] + seq![r.res1] + u16_bytes(r.flags as nat) + i32_bytes(r.ecefx_or_lat) + i32_bytes(r.ecefy_or_lon) + i32_bytes(r.ecefz_or_alt) + seq![r.ecefx_or_lat_hp as u8] + seq![r.ecefy_or_lon_hp as u8] + seq![r.ecefz_or_alt_hp as u8] + seq![r.res2] + u32_bytes(r.fixed_pos_acc as nat) + u32_bytes(r.svin_min_dur as nat) + u32_bytes(r.svin_accl_limit as nat) + seq![r.res3@[0]] + seq![r.res3@[1]] + seq![r.res3@[2]] + seq![r.res3@[3]], seq![r.res3@[4]], 36, 37);
    lemma_extend(p, seq![r.version] + seq![r.res1] + u16_bytes(r.flags as nat) + i32_bytes(r.ecefx_or_lat) + i32_bytes(r.ecefy_or_lon) + i32_bytes(r.ecefz_or_alt) + seq![r.ecefx_or_lat_hp as u8] + seq![r.ecefy_or_lon_hp as u8] + seq![r.ecefz_or_alt_hp as u8] + seq![r.res2] + u32_bytes(r.fixed_pos_acc as nat) + u32_bytes(r.svin_min_dur as nat) + u32_bytes(r.svin_accl_limit as nat) + seq![r.res3@[0]] + seq![r.res3@[1]] + seq![r.res3@[2]] + seq![r.res3@[3]] + seq![r.res3@[4]], seq![r.res3@[5]], 37, 38);
    lemma_extend(p, seq![r.version] + seq![r.res1] + u16_bytes(r.flags as nat) + i32_bytes(r.ecefx_or_lat) + i32_bytes(r.ecefy_or_lon) + i32_bytes(r.ecefz_or_alt) + seq![r.ecefx_or_lat_hp as u8] + seq![r.ecefy_or_lon_hp as u8] + seq![r.ecefz_or_alt_hp as u8] + seq![r.res2] + u32_bytes(r.fixed_pos_acc as nat) + u32_bytes(r.svin_min_dur as nat) + u32_bytes(r.svin_accl_limit as nat) + seq![r.res3@[0]] + seq![r.res3@[1]] + seq![r.res3@[2]] + seq![r.res3@[3]] + seq![r.res3@[4]] + seq![r.res3@[5]], seq![r.res3@[6]], 38, 39);
    lemma_extend(p, seq![r.version] + seq![r.res1] + u16_bytes(r.flags as nat) + i32_bytes(r.ecefx_or_lat) + i32_bytes(r.ecefy_or_lon) + i32_bytes(r.ecefz_or_alt) + seq![r.ecefx_or_lat_hp as u8] + seq![r.ecefy_or_lon_hp as u8] + seq![r.ecefz_or_alt_hp as u8] + seq![r.res2] + u32_bytes(r.fixed_pos_acc as nat) + u32_bytes(r.svin_min_dur as nat) + u32_bytes(r.svin_accl_limit as nat) + seq![r.res3@[0]] + seq![r.res3@[1]] + seq![r.res3@[2]] + seq![r.res3@[3]] + seq![r.res3@[4]] + seq![r.res3@[5]] + seq![r.res3@[6]], seq![r.res3@[7]], 39, 40);
    assert(p.subrange(0, 40) =~= p);
}

/// CFG-ANT (0x06 0x13): antenna control flags and pin assignment.
#[derive(Debug, Clone, Copy)]
pub struct Ant {
    pub flags: u16,
    pub pins: u16,
}

impl Ant {
    #[verifier::opaque]
    pub open spec fn spec_payload(&self) -> Seq<u8> {
        u16_bytes(self.flags as nat)
            + u16_bytes(self.pins as nat)
    }

    /// Reads a payload of exactly 4 bytes.
    pub fn from_bytes(p: &[u8]) -> (r: Ant)
        requires
            p@.len() == 4,
        ensures
            r.spec_payload() == p@,
    {
        let flags = take_u16(p, 0);
        let pins = take_u16(p, 2);
        let r = Ant {
            flags,
            pins,
        };
        proof {
            lemma_ant_bytes(r, p@);
        }
        r
    }

    /// Appends the 4-byte payload.
    pub fn write_bytes(&self, out: &mut Vec<u8>)
        ensures
            final(out)@ == old(out)@ + self.spec_payload(),
    {
        let mut buf: Vec<u8> = Vec::new();
        write_u16(self.flags, &mut buf);
        write_u16(self.pins, &mut buf);
        proof {
            reveal(Ant::spec_payload);
            assert(buf@ =~= self.spec_payload());
        }
        write_all(buf.as_slice(), out);
    }
}

proof fn lemma_ant_bytes(r: Ant, p: Seq<u8>)
    requires
        p.len() == 4,
        u16_bytes(r.flags as nat) == p.subrange(0, 2),
        u16_bytes(r.pins as nat) == p.subrange(2, 4),
    ensures
        r.spec_payload() == p,
{
    reveal(Ant::spec_payload);
    assert(p.subrange(0, 0) =~= Seq::<u8>::empty());
    lemma_extend(p, Seq::empty(), u16_bytes(r.flags as nat), 0, 2);
    assert(Seq::<u8>::empty() + u16_bytes(r.flags as nat) =~= u16_bytes(r.flags as nat));
    lemma_extend(p, u16_bytes(r.flags as nat), u16_bytes(r.pins as nat), 2, 4);
    assert(p.subrange(0, 4) =~= p);
}

/// CFG-PRT (0x06 0x00) for a UART: port settings. `mode` is the packed
/// `Mode` word, the protocol masks hold `ProtoMask` bits.
#[derive(Debug, Clone, Copy)]
pub struct Prt {
    pub port_id: u8,
    pub res1: u8,
    pub tx_ready: u16,
    pub mode: u32,
    pub baud_rate: u32,
    pub in_proto_mask: u16,
    pub out_proto_mask: u16,
    pub flags: u16,
    pub res2: u16,
}

impl Prt {
    #[verifier::opaque]
    pub open spec fn spec_payload(&self) -> Seq<u8> {
        seq![self.port_id]
            + seq![self.res1]
            + u16_bytes(self.tx_ready as nat)
            + u32_bytes(self.mode as nat)
            + u32_bytes(self.baud_rate as nat)
            + u16_bytes(self.in_proto_mask as nat)
            + u16_bytes(self.out_proto_mask as nat)
            + u16_bytes(self.flags as nat)
            + u16_bytes(self.res2 as nat)
    }

    /// Reads a payload of exactly 20 bytes.
    pub fn from_bytes(p: &[u8]) -> (r: Prt)
        requires
            p@.len() == 20,
        ensures
            r.spec_payload() == p@,
    {
        let port_id = take_u8(p, 0);
        let res1 = take_u8(p, 1);
        let tx_ready = take_u16(p, 2);
        let mode = take_u32(p, 4);
        let baud_rate = take_u32(p, 8);
        let in_proto_mask = take_u16(p, 12);
        let out_proto_mask = take_u16(p, 14);
        let flags = take_u16(p, 16);
        let res2 = take_u16(p, 18);
        let r = Prt {
            port_id,
            res1,
            tx_ready,
            mode,
            baud_rate,
            in_proto_mask,
            out_proto_mask,
            flags,
            res2,
        };
        proof {
            lemma_prt_bytes(r, p@);
        }
        r
    }

    /// Appends the 20-byte payload.
    pub fn write_bytes(&self, out: &mut Vec<u8>)
        ensures
            final(out)@ == old(out)@ + self.spec_payload(),
    {
        let mut buf: Vec<u8> = Vec::new();
        buf.push(self.port_id);
        buf.push(self.res1);
        write_u16(self.tx_ready, &mut buf);
        write_u32(self.mode, &mut buf);
        write_u32(self.baud_rate, &mut buf);
        write_u16(self.in_proto_mask, &mut buf);
        write_u16(self.out_proto_mask, &mut buf);
        write_u16(self.flags, &mut buf);
        write_u16(self.res2, &mut buf);
        proof {
            reveal(Prt::spec_payload);
            assert(buf@ =~= self.spec_payload());
        }
        write_all(buf.as_slice(), out);
    }
}

proof fn lemma_prt_bytes(r: Prt, p: Seq<u8>)
    requires
        p.len() == 20,
        seq![r.port_id] == p.subrange(0, 1),
        seq![r.res1] == p.subrange(1, 2),
        u16_bytes(r.tx_ready as nat) == p.subrange(2, 4),
        u32_bytes(r.mode as nat) == p.subrange(4, 8),
        u32_bytes(r.baud_rate as nat) == p.subrange(8, 12),
        u16_bytes(r.in_proto_mask as nat) == p.subrange(12, 14),
        u16_bytes(r.out_proto_mask as nat) == p.subrange(14, 16),
        u16_bytes(r.flags as nat) == p.subrange(16, 18),
        u16_bytes(r.res2 as nat) == p.subrange(18, 20),
    ensures
        r.spec_payload() == p,
{
    reveal(Prt::spec_payload);
    assert(p.subrange(0, 0) =~= Seq::<u8>::empty());
    lemma_extend(p, Seq::empty(), seq![r.port_id], 0, 1);
    assert(Seq::<u8>::empty() + seq![r.port_id] =~= seq![r.port_id]);
    lemma_extend(p, seq![r.port_id], seq![r.res1], 1, 2);
    lemma_extend(p, seq![r.port_id] + seq![r.res1], u16_bytes(r.tx_ready as nat), 2, 4);
    lemma_extend(p, seq![r.port_id] + seq![r.res1] + u16_bytes(r.tx_ready as nat), u32_bytes(r.mode as nat), 4, 8);
    lemma_extend(p, seq![r.port_id] + seq![r.res1] + u16_bytes(r.tx_ready as nat) + u32_bytes(r.mode as nat), u32_bytes(r.baud_rate as nat), 8, 12);
    lemma_extend(p, seq![r.port_id] + seq![r.res1] + u16_bytes(r.tx_ready as nat) + u32_bytes(r.mode as nat) + u32_bytes(r.baud_rate as nat), u16_bytes(r.in_proto_mask as nat), 12, 14);
    lemma_extend(p, seq![r.port_id] + seq![r.res1] + u16_bytes(r.tx_ready as nat) + u32_bytes(r.mode as nat) + u32_bytes(r.baud_rate as nat) + u16_bytes(r.in_proto_mask as nat), u16_bytes(r.out_proto_mask as nat), 14, 16);
    lemma_extend(p, seq![r.port_id] + seq![r.res1] + u16_bytes(r.tx_ready as nat) + u32_bytes(r.mode as nat) + u32_bytes(r.baud_rate as nat) + u16_bytes(r.in_proto_mask as nat) + u16_bytes(r.out_proto_mask as nat), u16_bytes(r.flags as nat), 16, 18);
    lemma_extend(p, seq![r.port_id] + seq![r.res1] + u16_bytes(r.tx_ready as nat) + u32_bytes(r.mode as nat) + u32_bytes(r.baud_rate as nat) + u16_bytes(r.in_proto_mask as nat) + u16_bytes(r.out_proto_mask as nat) + u16_bytes(r.flags as nat), u16_bytes(r.res2 as nat), 18, 20);
    assert(p.subrange(0, 20) =~= p);
}

/// CFG-CFG (0x06 0x09) without its device mask: which settings to clear,
/// save and load.
#[derive(Debug, Clone, Copy)]
pub struct CfgMasks {
    pub clear_mask: u32,
    pub save_mask: u32,
    pub load_mask: u32,
}

impl CfgMasks {
    #[verifier::opaque]
    pub open spec fn spec_payload(&self) -> Seq<u8> {
        u32_bytes(self.clear_mask as nat)
            + u32_bytes(self.save_mask as nat)
            + u32_bytes(self.load_mask as nat)
    }

    /// Reads a payload of exactly 12 bytes.
    pub fn from_bytes(p: &[u8]) -> (r: CfgMasks)
        requires
            p@.len() == 12,
        ensures
            r.spec_payload() == p@,
    {
        let clear_mask = take_u32(p, 0);
        let save_mask = take_u32(p, 4);
        let load_mask = take_u32(p, 8);
        let r = CfgMasks {
            clear_mask,
            save_mask,
            load_mask,
        };
        proof {
            lemma_cfgmasks_bytes(r, p@);
        }
        r
    }

    /// Appends the 12-byte payload.
    pub fn write_bytes(&self, out: &mut Vec<u8>)
        ensures
            final(out)@ == old(out)@ + self.spec_payload(),
    {
        let mut buf: Vec<u8> = Vec::new();
        write_u32(self.clear_mask, &mut buf);
        write_u32(self.save_mask, &mut buf);
        write_u32(self.load_mask, &mut buf);
        proof {
            reveal(CfgMasks::spec_payload);
            assert(buf@ =~= self.spec_payload());
        }
        write_all(buf.as_slice(), out);
    }
}

proof fn lemma_cfgmasks_bytes(r: CfgMasks, p: Seq<u8>)
    requires
        p.len() == 12,
        u32_bytes(r.clear_mask as nat) == p.subrange(0, 4),
        u32_bytes(r.save_mask as nat) == p.subrange(4, 8),
        u32_bytes(r.load_mask as nat) == p.subrange(8, 12),
    ensures
        r.spec_payload() == p,
{
    reveal(CfgMasks::spec_payload);
    assert(p.subrange(0, 0) =~= Seq::<u8>::empty());
    lemma_extend(p, Seq::empty(), u32_bytes(r.clear_mask as nat), 0, 4);
    assert(Seq::<u8>::empty() + u32_bytes(r.clear_mask as nat) =~= u32_bytes(r.clear_mask as nat));
    lemma_extend(p, u32_bytes(r.clear_mask as nat), u32_bytes(r.save_mask as nat), 4, 8);
    lemma_extend(p, u32_bytes(r.clear_mask as nat) + u32_bytes(r.save_mask as nat), u32_bytes(r.load_mask as nat), 8, 12);
    assert(p.subrange(0, 12) =~= p);
}

/// MON-MSGPP (0x0A 0x06): message counts per protocol and port.
#[derive(Debug, Clone, Copy)]
pub struct Msgpp {
    pub msg1: [u16; 8],
    pub msg2: [u16; 8],
    pub msg3: [u16; 8],
    pub msg4: [u16; 8],
    pub msg5: [u16; 8],
    pub msg6: [u16; 8],
    pub skipped: [u32; 6],
}

impl Msgpp {
    #[verifier::opaque]
    pub open spec fn spec_payload(&self) -> Seq<u8> {
        u16_bytes(self.msg1@[0] as nat)
            + u16_bytes(self.msg1@[1] as nat)
            + u16_bytes(self.msg1@[2] as nat)
            + u16_bytes(self.msg1@[3] as nat)
            + u16_bytes(self.msg1@[4] as nat)
            + u16_bytes(self.msg1@[5] as nat)
            + u16_bytes(self.msg1@[6] as nat)
            + u16_bytes(self.msg1@[7] as nat)
            + u16_bytes(self.msg2@[0] as nat)
            + u16_bytes(self.msg2@[1] as nat)
            + u16_bytes(self.msg2@[2] as nat)
            + u16_bytes(self.msg2@[3] as nat)
            + u16_bytes(self.msg2@[4] as nat)
            + u16_bytes(self.msg2@[5] as nat)
            + u16_bytes(self.msg2@[6] as nat)
            + u16_bytes(self.msg2@[7] as nat)
            + u16_bytes(self.msg3@[0] as nat)
            + u16_bytes(self.msg3@[1] as nat)
            + u16_bytes(self.msg3@[2] as nat)
            + u16_bytes(self.msg3@[3] as nat)
            + u16_bytes(self.msg3@[4] as nat)
            + u16_bytes(self.msg3@[5] as nat)
            + u16_bytes(self.msg3@[6] as nat)
            + u16_bytes(self.msg3@[7] as nat)
            + u16_bytes(self.msg4@[0] as nat)
            + u16_bytes(self.msg4@[1] as nat)
            + u16_bytes(self.msg4@[2] as nat)
            + u16_bytes(self.msg4@[3] as nat)
            + u16_bytes(self.msg4@[4] as nat)
            + u16_bytes(self.msg4@[5] as nat)
            + u16_bytes(self.msg4@[6] as nat)
            + u16_bytes(self.msg4@[7] as nat)
            + u16_bytes(self.msg5@[0] as nat)
            + u16_bytes(self.msg5@[1] as nat)
            + u16_bytes(self.msg5@[2] as nat)
            + u16_bytes(self.msg5@[3] as nat)
            + u16_bytes(self.msg5@[4] as nat)
            + u16_bytes(self.msg5@[5] as nat)
            + u16_bytes(self.msg5@[6] as nat)
            + u16_bytes(self.msg5@[7] as nat)
            + u16_bytes(self.msg6@[0] as nat)
            + u16_bytes(self.msg6@[1] as nat)
            + u16_bytes(self.msg6@[2] as nat)
            + u16_bytes(self.msg6@[3] as nat)
            + u16_bytes(self.msg6@[4] as nat)
            + u16_bytes(self.msg6@[5] as nat)
            + u16_bytes(self.msg6@[6] as nat)
            + u16_bytes(self.msg6@[7] as nat)
            + u32_bytes(self.skipped@[0] as nat)
            + u32_bytes(self.skipped@[1] as nat)
            + u32_bytes(self.skipped@[2] as nat)
            + u32_bytes(self.skipped@[3] as nat)
            + u32_bytes(self.skipped@[4] as nat)
            + u32_bytes(self.skipped@[5] as nat)
    }

    /// Reads a payload of exactly 120 bytes.
    #[verifier::spinoff_prover]
    #[verifier::rlimit(100)]
    pub fn from_bytes(p: &[u8]) -> (r: Msgpp)
        requires
            p@.len() == 120,
        ensures
            r.spec_payload() == p@,
    {
        let msg1_0 = take_u16(p, 0);
        let msg1_1 = take_u16(p, 2);
        let msg1_2 = take_u16(p, 4);
        let msg1_3 = take_u16(p, 6);
        let msg1_4 = take_u16(p, 8);
        let msg1_5 = take_u16(p, 10);
        let msg1_6 = take_u16(p, 12);
        let msg1_7 = take_u16(p, 14);
        let msg2_0 = take_u16(p, 16);
        let msg2_1 = take_u16(p, 18);
        let msg2_2 = take_u16(p, 20);
        let msg2_3 = take_u16(p, 22);
        let msg2_4 = take_u16(p, 24);
        let msg2_5 = take_u16(p, 26);
        let msg2_6 = take_u16(p, 28);
        let msg2_7 = take_u16(p, 30);
        let msg3_0 = take_u16(p, 32);
        let msg3_1 = take_u16(p, 34);
        let msg3_2 = take_u16(p, 36);
        let msg3_3 = take_u16(p, 38);
        let msg3_4 = take_u16(p, 40);
        let msg3_5 = take_u16(p, 42);
        let msg3_6 = take_u16(p, 44);
        let msg3_7 = take_u16(p, 46);
        let msg4_0 = take_u16(p, 48);
        let msg4_1 = take_u16(p, 50);
        let msg4_2 = take_u16(p, 52);
        let msg4_3 = take_u16(p, 54);
        let msg4_4 = take_u16(p, 56);
        let msg4_5 = take_u16(p, 58);
        let msg4_6 = take_u16(p, 60);
        let msg4_7 = take_u16(p, 62);
        let msg5_0 = take_u16(p, 64);
        let msg5_1 = take_u16(p, 66);
        let msg5_2 = take_u16(p, 68);
        let msg5_3 = take_u16(p, 70);
        let msg5_4 = take_u16(p, 72);
        let msg5_5 = take_u16(p, 74);
        let msg5_6 = take_u16(p, 76);
        let msg5_7 = take_u16(p, 78);
        let msg6_0 = take_u16(p, 80);
        let msg6_1 = take_u16(p, 82);
        let msg6_2 = take_u16(p, 84);
        let msg6_3 = take_u16(p, 86);
        let msg6_4 = take_u16(p, 88);
        let msg6_5 = take_u16(p, 90);
        let msg6_6 = take_u16(p, 92);
        let msg6_7 = take_u16(p, 94);
        let skipped_0 = take_u32(p, 96);
        let skipped_1 = take_u32(p, 100);
        let skipped_2 = take_u32(p, 104);
        let skipped_3 = take_u32(p, 108);
        let skipped_4 = take_u32(p, 112);
        let skipped_5 = take_u32(p, 116);
        let r = Msgpp {
            msg1: [msg1_0, msg1_1, msg1_2, msg1_3, msg1_4, msg1_5, msg1_6, msg1_7],
            msg2: [msg2_0, msg2_1, msg2_2, msg2_3, msg2_4, msg2_5, msg2_6, msg2_7],
            msg3: [msg3_0, msg3_1, msg3_2, msg3_3, msg3_4, msg3_5, msg3_6, msg3_7],
            msg4: [msg4_0, msg4_1, msg4_2, msg4_3, msg4_4, msg4_5, msg4_6, msg4_7],
            msg5: [msg5_0, msg5_1, msg5_2, msg5_3, msg5_4, msg5_5, msg5_6, msg5_7],
            msg6: [msg6_0, msg6_1, msg6_2, msg6_3, msg6_4, msg6_5, msg6_6, msg6_7],
            skipped: [skipped_0, skipped_1, skipped_2, skipped_3, skipped_4, skipped_5],
        };
        proof {
            lemma_msgpp_bytes(r, p@);
        }
        r
    }

    /// Appends the 120-byte payload.
    pub fn write_bytes(&self, out: &mut Vec<u8>)
        ensures
            final(out)@ == old(out)@ + self.spec_payload(),
    {
        let mut buf: Vec<u8> = Vec::new();
        write_u16(self.msg1[0], &mut buf);
        write_u16(self.msg1[1], &mut buf);
        write_u16(self.msg1[2], &mut buf);
        write_u16(self.msg1[3], &mut buf);
        write_u16(self.msg1[4], &mut buf);
        write_u16(self.msg1[5], &mut buf);
        write_u16(self.msg1[6], &mut buf);
        write_u16(self.msg1[7], &mut buf);
        write_u16(self.msg2[0], &mut buf);
        write_u16(self.msg2[1], &mut buf);
        write_u16(self.msg2[2], &mut buf);
        write_u16(self.msg2[3], &mut buf);
        write_u16(self.msg2[4], &mut buf);
        write_u16(self.msg2[5], &mut buf);
        write_u16(self.msg2[6], &mut buf);
        write_u16(self.msg2[7], &mut buf);
        write_u16(self.msg3[0], &mut buf);
        write_u16(self.msg3[1], &mut buf);
        write_u16(self.msg3[2], &mut buf);
        write_u16(self.msg3[3], &mut buf);
        write_u16(self.msg3[4], &mut buf);
        write_u16(self.msg3[5], &mut buf);
        write_u16(self.msg3[6], &mut buf);
        write_u16(self.msg3[7], &mut buf);
        write_u16(self.msg4[0], &mut buf);
        write_u16(self.msg4[1], &mut buf);
        write_u16(self.msg4[2], &mut buf);
        write_u16(self.msg4[3], &mut buf);
        write_u16(self.msg4[4], &mut buf);
        write_u16(self.msg4[5], &mut buf);
        write_u16(self.msg4[6], &mut buf);
        write_u16(self.msg4[7], &mut buf);
        write_u16(self.msg5[0], &mut buf);
        write_u16(self.msg5[1], &mut buf);
        write_u16(self.msg5[2], &mut buf);
        write_u16(self.msg5[3], &mut buf);
        write_u16(self.msg5[4], &mut buf);
        write_u16(self.msg5[5], &mut buf);
        write_u16(self.msg5[6], &mut buf);
        write_u16(self.msg5[7], &mut buf);
        write_u16(self.msg6[0], &mut buf);
        write_u16(self.msg6[1], &mut buf);
        write_u16(self.msg6[2], &mut buf);
        write_u16(self.msg6[3], &mut buf);
        write_u16(self.msg6[4], &mut buf);
        write_u16(self.msg6[5], &mut buf);
        write_u16(self.msg6[6], &mut buf);
        write_u16(self.msg6[7], &mut buf);
        write_u32(self.skipped[0], &mut buf);
        write_u32(self.skipped[1], &mut buf);
        write_u32(self.skipped[2], &mut buf);
        write_u32(self.skipped[3], &mut buf);
        write_u32(self.skipped[4], &mut buf);
        write_u32(self.skipped[5], &mut buf);
        proof {
            reveal(Msgpp::spec_payload);
            assert(buf@ =~= self.spec_payload());
        }
        write_all(buf.as_slice(), out);
    }
}

proof fn lemma_msgpp_bytes(r: Msgpp, p: Seq<u8>)
    requires
        p.len() == 120,
        u16_bytes(r.msg1@[0] as nat) == p.subrange(0, 2),
        u16_bytes(r.msg1@[1] as nat) == p.subrange(2, 4),
        u16_bytes(r.msg1@[2] as nat) == p.subrange(4, 6),
        u16_bytes(r.msg1@[3] as nat) == p.subrange(6, 8),
        u16_bytes(r.msg1@[4] as nat) == p.subrange(8, 10),
        u16_bytes(r.msg1@[5] as nat) == p.subrange(10, 12),
        u16_bytes(r.msg1@[6] as nat) == p.subrange(12, 14),
        u16_bytes(r.msg1@[7] as nat) == p.subrange(14, 16),
        u16_bytes(r.msg2@[0] as nat) == p.subrange(16, 18),
        u16_bytes(r.msg2@[1] as nat) == p.subrange(18, 20),
        u16_bytes(r.msg2@[2] as nat) == p.subrange(20, 22),
        u16_bytes(r.msg2@[3] as nat) == p.subrange(22, 24),
        u16_bytes(r.msg2@[4] as nat) == p.subrange(24, 26),
        u16_bytes(r.msg2@[5] as nat) == p.subrange(26, 28),
        u16_bytes(r.msg2@[6] as nat) == p.subrange(28, 30),
        u16_bytes(r.msg2@[7] as nat) == p.subrange(30, 32),
        u16_bytes(r.msg3@[0] as nat) == p.subrange(32, 34),
        u16_bytes(r.msg3@[1] as nat) == p.subrange(34, 36),
        u16_bytes(r.msg3@[2] as nat) == p.subrange(36, 38),
        u16_bytes(r.msg3@[3] as nat) == p.subrange(38, 40),
        u16_bytes(r.msg3@[4] as nat) == p.subrange(40, 42),
        u16_bytes(r.msg3@[5] as nat) == p.subrange(42, 44),
        u16_bytes(r.msg3@[6] as nat) == p.subrange(44, 46),
        u16_bytes(r.msg3@[7] as nat) == p.subrange(46, 48),
        u16_bytes(r.msg4@[0] as nat) == p.subrange(48, 50),
        u16_bytes(r.msg4@[1] as nat) == p.subrange(50, 52),
        u16_bytes(r.msg4@[2] as nat) == p.subrange(52, 54),
        u16_bytes(r.msg4@[3] as nat) == p.subrange(54, 56),
        u16_bytes(r.msg4@[4] as nat) == p.subrange(56, 58),
        u16_bytes(r.msg4@[5] as nat) == p.subrange(58, 60),
        u16_bytes(r.msg4@[6] as nat) == p.subrange(60, 62),
        u16_bytes(r.msg4@[7] as nat) == p.subrange(62, 64),
        u16_bytes(r.msg5@[0] as nat) == p.subrange(64, 66),
        u16_bytes(r.msg5@[1] as nat) == p.subrange(66, 68),
        u16_bytes(r.msg5@[2] as nat) == p.subrange(68, 70),
        u16_bytes(r.msg5@[3] as nat) == p.subrange(70, 72),
        u16_bytes(r.msg5@[4] as nat) == p.subrange(72, 74),
        u16_bytes(r.msg5@[5] as nat) == p.subrange(74, 76),
        u16_bytes(r.msg5@[6] as nat) == p.subrange(76, 78),
        u16_bytes(r.msg5@[7] as nat) == p.subrange(78, 80),
        u16_bytes(r.msg6@[0] as nat) == p.subrange(80, 82),
        u16_bytes(r.msg6@[1] as nat) == p.subrange(82, 84),
        u16_bytes(r.msg6@[2] as nat) == p.subrange(84, 86),
        u16_bytes(r.msg6@[3] as nat) == p.subrange(86, 88),
        u16_bytes(r.msg6@[4] as nat) == p.subrange(88, 90),
        u16_bytes(r.msg6@[5] as nat) == p.subrange(90, 92),
        u16_bytes(r.msg6@[6] as nat) == p.subrange(92, 94),
        u16_bytes(r.msg6@[7] as nat) == p.subrange(94, 96),
        u32_bytes(r.skipped@[0] as nat) == p.subrange(96, 100),
        u32_bytes(r.skipped@[1] as nat) == p.subrange(100, 104),
        u32_bytes(r.skipped@[2] as nat) == p.subrange(104, 108),
        u32_bytes(r.skipped@[3] as nat) == p.subrange(108, 112),
        u32_bytes(r.skipped@[4] as nat) == p.subrange(112, 116),
        u32_bytes(r.skipped@[5] as nat) == p.subrange(116, 120),
    ensures
        r.spec_payload() == p,
{
    reveal(Msgpp::spec_payload);
    assert(p.subrange(0, 0) =~= Seq::<u8>::empty());
    lemma_extend(p, Seq::empty(), u16_bytes(r.msg1@[0] as nat), 0, 2);
    assert(Seq::<u8>::empty() + u16_bytes(r.msg1@[0] as nat) =~= u16_bytes(r.msg1@[0] as nat));
    lemma_extend(p, u16_bytes(r.msg1@[0] as nat), u16_bytes(r.msg1@[1] as nat), 2, 4);
    lemma_extend(p, u16_bytes(r.msg1@[0] as nat) + u16_bytes(r.msg1@[1] as nat), u16_bytes(r.msg1@[2] as nat), 4, 6);
    lemma_extend(p, u16_bytes(r.msg1@[0] as nat) + u16_bytes(r.msg1@[1] as nat) + u16_bytes(r.msg1@[2] as nat), u16_bytes(r.msg1@[3] as nat), 6, 8);
    lemma_extend(p, u16_bytes(r.msg1@[0] as nat) + u16_bytes(r.msg1@[1] as nat) + u16_bytes(r.msg1@[2] as nat) + u16_bytes(r.msg1@[3] as nat), u16_bytes(r.msg1@[4] as nat), 8, 10);
    lemma_extend(p, u16_bytes(r.msg1@[0] as nat) + u16_bytes(r.msg1@[1] as nat) + u16_bytes(r.msg1@[2] as nat) + u16_bytes(r.msg1@[3] as nat) + u16_bytes(r.msg1@[4] as nat), u16_bytes(r.msg1@[5] as nat), 10, 12);
    lemma_extend(p, u16_bytes(r.msg1@[0] as nat) + u16_bytes(r.msg1@[1] as nat) + u16_bytes(r.msg1@[2] as nat) + u16_bytes(r.msg1@[3] as nat) + u16_bytes(r.msg1@[4] as nat) + u16_bytes(r.msg1@[5] as nat), u16_bytes(r.msg1@[6] as nat), 12, 14);
    lemma_extend(p, u16_bytes(r.msg1@[0] as nat) + u16_bytes(r.msg1@[1] as nat) + u16_bytes(r.msg1@[2] as nat) + u16_bytes(r.msg1@[3] as nat) + u16_bytes(r.msg1@[4] as nat) + u16_bytes(r.msg1@[5] as nat) + u16_bytes(r.msg1@[6] as nat), u16_bytes(r.msg1@[7] as nat), 14, 16);
    lemma_extend(p, u16_bytes(r.msg1@[0] as nat) + u16_bytes(r.msg1@[1] as nat) + u16_bytes(r.msg1@[2] as nat) + u16_bytes(r.msg1@[3] as nat) + u16_bytes(r.msg1@[4] as nat) + u16_bytes(r.msg1@[5] as nat) + u16_bytes(r.msg1@[6] as nat) + u16_bytes(r.msg1@[7] as nat), u16_bytes(r.msg2@[0] as nat), 16, 18);
    lemma_extend(p, u16_bytes(r.msg1@[0] as nat) + u16_bytes(r.msg1@[1] as nat) + u16_bytes(r.msg1@[2] as nat) + u16_bytes(r.msg1@[3] as nat) + u16_bytes(r.msg1@[4] as nat) + u16_bytes(r.msg1@[5] as nat) + u16_bytes(r.msg1@[6] as nat) + u16_bytes(r.msg1@[7] as nat) + u16_bytes(r.msg2@[0] as nat), u16_bytes(r.msg2@[1] as nat), 18, 20);
    lemma_extend(p, u16_bytes(r.msg1@[0] as nat) + u16_bytes(r.msg1@[1] as nat) + u16_bytes(r.msg1@[2] as nat) + u16_bytes(r.msg1@[3] as nat) + u16_bytes(r.msg1@[4] as nat) + u16_bytes(r.msg1@[5] as nat) + u16_bytes(r.msg1@[6] as nat) + u16_bytes(r.msg1@[7] as nat) + u16_bytes(r.msg2@[0] as nat) + u16_bytes(r.msg2@[1] as nat), u16_bytes(r.msg2@[2] as nat), 20, 22);
    lemma_extend(p, u16_bytes(r.msg1@[0] as nat) + u16_bytes(r.msg1@[1] as nat) + u16_bytes(r.msg1@[2] as nat) + u16_bytes(r.msg1@[3] as nat) + u16_bytes(r.msg1@[4] as nat) + u16_bytes(r.msg1@[5] as nat) + u16_bytes(r.msg1@[6] as nat) + u16_bytes(r.msg1@[7] as nat) + u16_bytes(r.msg2@[0] as nat) + u16_bytes(r.msg2@[1] as nat) + u16_bytes(r.msg2@[2] as nat), u16_bytes(r.msg2@[3] as nat), 22, 24);
    lemma_extend(p, u16_bytes(r.msg1@[0] as nat) + u16_bytes(r.msg1@[1] as nat) + u16_bytes(r.msg1@[2] as nat) + u16_bytes(r.msg1@[3] as nat) + u16_bytes(r.msg1@[4] as nat) + u16_bytes(r.msg1@[5] as nat) + u16_bytes(r.msg1@[6] as nat) + u16_bytes(r.msg1@[7] as nat) + u16_bytes(r.msg2@[0] as nat) + u16_bytes(r.msg2@[1] as nat) + u16_bytes(r.msg2@[2] as nat) + u16_bytes(r.msg2@[3] as nat), u16_bytes(r.msg2@[4] as nat), 24, 26);
    lemma_extend(p, u16_bytes(r.msg1@[0] as nat) + u16_bytes(r.msg1@[1] as nat) + u16_bytes(r.msg1@[2] as nat) + u16_bytes(r.msg1@[3] as nat) + u16_bytes(r.msg1@[4] as nat) + u16_bytes(r.msg1@[5] as nat) + u16_bytes(r.msg1@[6] as nat) + u16_bytes(r.msg1@[7] as nat) + u16_bytes(r.msg2@[0] as nat) + u16_bytes(r.msg2@[1] as nat) + u16_bytes(r.msg2@[2] as nat) + u16_bytes(r.msg2@[3] as nat) + u16_bytes(r.msg2@[4] as nat), u16_bytes(r.msg2@[5] as nat), 26, 28);
    lemma_extend(p, u16_bytes(r.msg1@[0] as nat) + u16_bytes(r.msg1@[1] as nat) + u16_bytes(r.msg1@[2] as nat) + u16_bytes(r.msg1@[3] as nat) + u16_bytes(r.msg1@[4] as nat) + u16_bytes(r.msg1@[5] as nat) + u16_bytes(r.msg1@[6] as nat) + u16_bytes(r.msg1@[7] as nat) + u16_bytes(r.msg2@[0] as nat) + u16_bytes(r.msg2@[1] as nat) + u16_bytes(r.msg2@[2] as nat) + u16_bytes(r.msg2@[3] as nat) + u16_bytes(r.msg2@[4] as nat) + u16_bytes(r.msg2@[5] as nat), u16_bytes(r.msg2@[6] as nat), 28, 30);
    lemma_extend(p, u16_bytes(r.msg1@[0] as nat) + u16_bytes(r.msg1@[1] as nat) + u16_bytes(r.msg1@[2] as nat) + u16_bytes(r.msg1@[3] as nat) + u16_bytes(r.msg1@[4] as nat) + u16_bytes(r.msg1@[5] as nat) + u16_bytes(r.msg1@[6] as nat) + u16_bytes(r.msg1@[7] as nat) + u16_bytes(r.msg2@[0] as nat) + u16_bytes(r.msg2@[1] as nat) + u16_bytes(r.msg2@[2] as nat) + u16_bytes(r.msg2@[3] as nat) + u16_bytes(r.msg2@[4] as nat) + u16_bytes(r.msg2@[5] as nat) + u16_bytes(r.msg2@[6] as nat), u16_bytes(r.msg2@[7] as nat), 30, 32);
    lemma_extend(p, u16_bytes(r.msg1@[0] as nat) + u16_bytes(r.msg1@[1] as nat) + u16_bytes(r.msg1@[2] as nat) + u16_bytes(r.msg1@[3] as nat) + u16_bytes(r.msg1@[4] as nat) + u16_bytes(r.msg1@[5] as nat) + u16_bytes(r.msg1@[6] as nat) + u16_bytes(r.msg1@[7] as nat) + u16_bytes(r.msg2@[0] as nat) + u16_bytes(r.msg2@[1] as nat) + u16_bytes(r.msg2@[2] as nat) + u16_bytes(r.msg2@[3] as nat) + u16_bytes(r.msg2@[4] as nat) + u16_bytes(r.msg2@[5] as nat) + u16_bytes(r.msg2@[6] as nat) + u16_bytes(r.msg2@[7] as nat), u16_bytes(r.msg3@[0] as nat), 32, 34);
    lemma_extend(p, u16_bytes(r.msg1@[0] as nat) + u16_bytes(r.msg1@[1] as nat) + u16_bytes(r.msg1@[2] as nat) + u16_bytes(r.msg1@[3] as nat) + u16_bytes(r.msg1@[4] as nat) + u16_bytes(r.msg1@[5] as nat) + u16_bytes(r.msg1@[6] as nat) + u16_bytes(r.msg1@[7] as nat) + u16_bytes(r.msg2@[0] as nat) + u16_bytes(r.msg2@[1] as nat) + u16_bytes(r.msg2@[2] as nat) + u16_bytes(r.msg2@[3] as nat) + u16_bytes(r.msg2@[4] as nat) + u16_bytes(r.msg2@[5] as nat) + u16_bytes(r.msg2@[6] as nat) + u16_bytes(r.msg2@[7] as nat) + u16_bytes(r.msg3@[0] as nat), u16_bytes(r.msg3@[1] as nat), 34, 36);
    lemma_extend(p, u16_bytes(r.msg1@[0] as nat) + u16_bytes(r.msg1@[1] as nat) + u16_bytes(r.msg1@[2] as nat) + u16_bytes(r.msg1@[3] as nat) + u16_bytes(r.msg1@[4] as nat) + u16_bytes(r.msg1@[5] as nat) + u16_bytes(r.msg1@[6] as nat) + u16_bytes(r.msg1@[7] as nat) + u16_bytes(r.msg2@[0] as nat) + u16_bytes(r.msg2@[1] as nat) + u16_bytes(r.msg2@[2] as nat) + u16_bytes(r.msg2@[3] as nat) + u16_bytes(r.msg2@[4] as nat) + u16_bytes(r.msg2@[5] as nat) + u16_bytes(r.msg2@[6] as nat) + u16_bytes(r.msg2@[7] as nat) + u16_bytes(r.msg3@[0] as nat) + u16_bytes(r.msg3@[1] as nat), u16_bytes(r.msg3@[2] as nat), 36, 38);
    lemma_extend(p, u16_bytes(r.msg1@[0] as nat) + u16_bytes(r.msg1@[1] as nat) + u16_bytes(r.msg1@[2] as nat) + u16_bytes(r.msg1@[3] as nat) + u16_bytes(r.msg1@[4] as nat) + u16_bytes(r.msg1@[5] as nat) + u16_bytes(r.msg1@[6] as nat) + u16_bytes(r.msg1@[7] as nat) + u16_bytes(r.msg2@[0] as nat) + u16_bytes(r.msg2@[1] as nat) + u16_bytes(r.msg2@[2] as nat) + u16_bytes(r.msg2@[3] as nat) + u16_bytes(r.msg2@[4] as nat) + u16_bytes(r.msg2@[5] as nat) + u16_bytes(r.msg2@[6] as nat) + u16_bytes(r.msg2@[7] as nat) + u16_bytes(r.msg3@[0] as nat) + u16_bytes(r.msg3@[1] as nat) + u16_bytes(r.msg3@[2] as nat), u16_bytes(r.msg3@[3] as nat), 38, 40);
    lemma_extend(p, u16_bytes(r.msg1@[0] as nat) + u16_bytes(r.msg1@[1] as nat) + u16_bytes(r.msg1@[2] as nat) + u16_bytes(r.msg1@[3] as nat) + u16_bytes(r.msg1@[4] as nat) + u16_bytes(r.msg1@[5] as nat) + u16_bytes(r.msg1@[6] as nat) + u16_bytes(r.msg1@[7] as nat) + u16_bytes(r.msg2@[0] as nat) + u16_bytes(r.msg2@[1] as nat) + u16_bytes(r.msg2@[2] as nat) + u16_bytes(r.msg2@[3] as nat) + u16_bytes(r.msg2@[4] as nat) + u16_bytes(r.msg2@[5] as nat) + u16_bytes(r.msg2@[6] as nat) + u16_bytes(r.msg2@[7] as nat) + u16_bytes(r.msg3@[0] as nat) + u16_bytes(r.msg3@[1] as nat) + u16_bytes(r.msg3@[2] as nat) + u16_bytes(r.msg3@[3] as nat), u16_bytes(r.msg3@[4] as nat), 40, 42);
    lemma_extend(p, u16_bytes(r.msg1@[0] as nat) + u16_bytes(r.msg1@[1] as nat) + u16_bytes(r.msg1@[2] as nat) + u16_bytes(r.msg1@[3] as nat) + u16_bytes(r.msg1@[4] as nat) + u16_bytes(r.msg1@[5] as nat) + u16_bytes(r.msg1@[6] as nat) + u16_bytes(r.msg1@[7] as nat) + u16_bytes(r.msg2@[0] as nat) + u16_bytes(r.msg2@[1] as nat) + u16_bytes(r.msg2@[2] as nat) + u16_bytes(r.msg2@[3] as nat) + u16_bytes(r.msg2@[4] as nat) + u16_bytes(r.msg2@[5] as nat) + u16_bytes(r.msg2@[6] as nat) + u16_bytes(r.msg2@[7] as nat) + u16_bytes(r.msg3@[0] as nat) + u16_bytes(r.msg3@[1] as nat) + u16_bytes(r.msg3@[2] as nat) + u16_bytes(r.msg3@[3] as nat) + u16_bytes(r.msg3@[4] as nat), u16_bytes(r.msg3@[5] as nat), 42, 44);
    lemma_extend(p, u16_bytes(r.msg1@[0] as nat) + u16_bytes(r.msg1@[1] as nat) + u16_bytes(r.msg1@[2] as nat) + u16_bytes(r.msg1@[3] as nat) + u16_bytes(r.msg1@[4] as nat) + u16_bytes(r.msg1@[5] as nat) + u16_bytes(r.msg1@[6] as nat) + u16_bytes(r.msg1@[7] as nat) + u16_bytes(r.msg2@[0] as nat) + u16_bytes(r.msg2@[1] as nat) + u16_bytes(r.msg2@[2] as nat) + u16_bytes(r.msg2@[3] as nat) + u16_bytes(r.msg2@[4] as nat) + u16_bytes(r.msg2@[5] as nat) + u16_bytes(r.msg2@[6] as nat) + u16_bytes(r.msg2@[7] as nat) + u16_bytes(r.msg3@[0] as nat) + u16_bytes(r.msg3@[1] as nat) + u16_bytes(r.msg3@[2] as nat) + u16_bytes(r.msg3@[3] as nat) + u16_bytes(r.msg3@[4] as nat) + u16_bytes(r.msg3@[5] as nat), u16_bytes(r.msg3@[6] as nat), 44, 46);
    lemma_extend(p, u16_bytes(r.msg1@[0] as nat) + u16_bytes(r.msg1@[1] as nat) + u16_bytes(r.msg1@[2] as nat) + u16_bytes(r.msg1@[3] as nat) + u16_bytes(r.msg1@[4] as nat) + u16_bytes(r.msg1@[5] as nat) + u16_bytes(r.msg1@[6] as nat) + u16_bytes(r.msg1@[7] as nat) + u16_bytes(r.msg2@[0] as nat) + u16_bytes(r.msg2@[1] as nat) + u16_bytes(r.msg2@[2] as nat) + u16_bytes(r.msg2@[3] as nat) + u16_bytes(r.msg2@[4] as nat) + u16_bytes(r.msg2@[5] as nat) + u16_bytes(r.msg2@[6] as nat) + u16_bytes(r.msg2@[7] as nat) + u16_bytes(r.msg3@[0] as nat) + u16_bytes(r.msg3@[1] as nat) + u16_bytes(r.msg3@[2] as nat) + u16_bytes(r.msg3@[3] as nat) + u16_bytes(r.msg3@[4] as nat) + u16_bytes(r.msg3@[5] as nat) + u16_bytes(r.msg3@[6] as nat), u16_bytes(r.msg3@[7] as nat), 46, 48);
    lemma_extend(p, u16_bytes(r.msg1@[0] as nat) + u16_bytes(r.msg1@[1] as nat) + u16_bytes(r.msg1@[2] as nat) + u16_bytes(r.msg1@[3] as nat) + u16_bytes(r.msg1@[4] as nat) + u16_bytes(r.msg1@[5] as nat) + u16_bytes(r.msg1@[6] as nat) + u16_bytes(r.msg1@[7] as nat) + u16_bytes(r.msg2@[0] as nat) + u16_bytes(r.msg2@[1] as nat) + u16_bytes(r.msg2@[2] as nat) + u16_bytes(r.msg2@[3] as nat) + u16_bytes(r.msg2@[4] as nat) + u16_bytes(r.msg2@[5] as nat) + u16_bytes(r.msg2@[6] as nat) + u16_bytes(r.msg2@[7] as nat) + u16_bytes(r.msg3@[0] as nat) + u16_bytes(r.msg3@[1] as nat) + u16_bytes(r.msg3@[2] as nat) + u16_bytes(r.msg3@[3] as nat) + u16_bytes(r.msg3@[4] as nat) + u16_bytes(r.msg3@[5] as nat) + u16_bytes(r.msg3@[6] as nat) + u16_bytes(r.msg3@[7] as nat), u16_bytes(r.msg4@[0] as nat), 48, 50);
    lemma_extend(p, u16_bytes(r.msg1@[0] as nat) + u16_bytes(r.msg1@[1] as nat) + u16_bytes(r.msg1@[2] as nat) + u16_bytes(r.msg1@[3] as nat) + u16_bytes(r.msg1@[4] as nat) + u16_bytes(r.msg1@[5] as nat) + u16_bytes(r.msg1@[6] as nat) + u16_bytes(r.msg1@[7] as nat) + u16_bytes(r.msg2@[0] as nat) + u16_bytes(r.msg2@[1] as nat) + u16_bytes(r.msg2@[2] as nat) + u16_bytes(r.msg2@[3] as nat) + u16_bytes(r.msg2@[4] as nat) + u16_bytes(r.msg2@[5] as nat) + u16_bytes(r.msg2@[6] as nat) + u16_bytes(r.msg2@[7] as nat) + u16_bytes(r.msg3@[0] as nat) + u16_bytes(r.msg3@[1] as nat) + u16_bytes(r.msg3@[2] as nat) + u16_bytes(r.msg3@[3] as nat) + u16_bytes(r.msg3@[4] as nat) + u16_bytes(r.msg3@[5] as nat) + u16_bytes(r.msg3@[6] as nat) + u16_bytes(r.msg3@[7] as nat) + u16_bytes(r.msg4@[0] as nat), u16_bytes(r.msg4@[1] as nat), 50, 52);
    lemma_extend(p, u16_bytes(r.msg1@[0] as nat) + u16_bytes(r.msg1@[1] as nat) + u16_bytes(r.msg1@[2] as nat) + u16_bytes(r.msg1@[3] as nat) + u16_bytes(r.msg1@[4] as nat) + u16_bytes(r.msg1@[5] as nat) + u16_bytes(r.msg1@[6] as nat) + u16_bytes(r.msg1@[7] as nat) + u16_bytes(r.msg2@[0] as nat) + u16_bytes(r.msg2@[1] as nat) + u16_bytes(r.msg2@[2] as nat) + u16_bytes(r.msg2@[3] as nat) + u16_bytes(r.msg2@[4] as nat) + u16_bytes(r.msg2@[5] as nat) + u16_bytes(r.msg2@[6] as nat) + u16_bytes(r.msg2@[7] as nat) + u16_bytes(r.msg3@[0] as nat) + u16_bytes(r.msg3@[1] as nat) + u16_bytes(r.msg3@[2] as nat) + u16_bytes(r.msg3@[3] as nat) + u16_bytes(r.msg3@[4] as nat) + u16_bytes(r.msg3@[5] as nat) + u16_bytes(r.msg3@[6] as nat) + u16_bytes(r.msg3@[7] as nat) + u16_bytes(r.msg4@[0] as nat) + u16_bytes(r.msg4@[1] as nat), u16_bytes(r.msg4@[2] as nat), 52, 54);
    lemma_extend(p, u16_bytes(r.msg1@[0] as nat) + u16_bytes(r.msg1@[1] as nat) + u16_bytes(r.msg1@[2] as nat) + u16_bytes(r.msg1@[3] as nat) + u16_bytes(r.msg1@[4] as nat) + u16_bytes(r.msg1@[5] as nat) + u16_bytes(r.msg1@[6] as nat) + u16_bytes(r.msg1@[7] as nat) + u16_bytes(r.msg2@[0] as nat) + u16_bytes(r.msg2@[1] as nat) + u16_bytes(r.msg2@[2] as nat) + u16_bytes(r.msg2@[3] as nat) + u16_bytes(r.msg2@[4] as nat) + u16_bytes(r.msg2@[5] as nat) + u16_bytes(r.msg2@[6] as nat) + u16_bytes(r.msg2@[7] as nat) + u16_bytes(r.msg3@[0] as nat) + u16_bytes(r.msg3@[1] as nat) + u16_bytes(r.msg3@[2] as nat) + u16_bytes(r.msg3@[3] as nat) + u16_bytes(r.msg3@[4] as nat) + u16_bytes(r.msg3@[5] as nat) + u16_bytes(r.msg3@[6] as nat) + u16_bytes(r.msg3@[7] as nat) + u16_bytes(r.msg4@[0] as nat) + u16_bytes(r.msg4@[1] as nat) + u16_bytes(r.msg4@[2] as nat), u16_bytes(r.msg4@[3] as nat), 54, 56);
    lemma_extend(p, u16_bytes(r.msg1@[0] as nat) + u16_bytes(r.msg1@[1] as nat) + u16_bytes(r.msg1@[2] as nat) + u16_bytes(r.msg1@[3] as nat) + u16_bytes(r.msg1@[4] as nat) + u16_bytes(r.msg1@[5] as nat) + u16_bytes(r.msg1@[6] as nat) + u16_bytes(r.msg1@[7] as nat) + u16_bytes(r.msg2@[0] as nat) + u16_bytes(r.msg2@[1] as nat) + u16_bytes(r.msg2@[2] as nat) + u16_bytes(r.msg2@[3] as nat) + u16_bytes(r.msg2@[4] as nat) + u16_bytes(r.msg2@[5] as nat) + u16_bytes(r.msg2@[6] as nat) + u16_bytes(r.msg2@[7] as nat) + u16_bytes(r.msg3@[0] as nat) + u16_bytes(r.msg3@[1] as nat) + u16_bytes(r.msg3@[2] as nat) + u16_bytes(r.msg3@[3] as nat) + u16_bytes(r.msg3@[4] as nat) + u16_bytes(r.msg3@[5] as nat) + u16_bytes(r.msg3@[6] as nat) + u16_bytes(r.msg3@[7] as nat) + u16_bytes(r.msg4@[0] as nat) + u16_bytes(r.msg4@[1] as nat) + u16_bytes(r.msg4@[2] as nat) + u16_bytes(r.msg4@[3] as nat), u16_bytes(r.msg4@[4] as nat), 56, 58);
    lemma_extend(p, u16_bytes(r.msg1@[0] as nat) + u16_bytes(r.msg1@[1] as nat) + u16_bytes(r.msg1@[2] as nat) + u16_bytes(r.msg1@[3] as nat) + u16_bytes(r.msg1@[4] as nat) + u16_bytes(r.msg1@[5] as nat) + u16_bytes(r.msg1@[6] as nat) + u16_bytes(r.msg1@[7] as nat) + u16_bytes(r.msg2@[0] as nat) + u16_bytes(r.msg2@[1] as nat) + u16_bytes(r.msg2@[2] as nat) + u16_bytes(r.msg2@[3] as nat) + u16_bytes(r.msg2@[4] as nat) + u16_bytes(r.msg2@[5] as nat) + u16_bytes(r.msg2@[6] as nat) + u16_bytes(r.msg2@[7] as nat) + u16_bytes(r.msg3@[0] as nat) + u16_bytes(r.msg3@[1] as nat) + u16_bytes(r.msg3@[2] as nat) + u16_bytes(r.msg3@[3] as nat) + u16_bytes(r.msg3@[4] as nat) + u16_bytes(r.msg3@[5] as nat) + u16_bytes(r.msg3@[6] as nat) + u16_bytes(r.msg3@[7] as nat) + u16_bytes(r.msg4@[0] as nat) + u16_bytes(r.msg4@[1] as nat) + u16_bytes(r.msg4@[2] as nat) + u16_bytes(r.msg4@[3] as nat) + u16_bytes(r.msg4@[4] as nat), u16_bytes(r.msg4@[5] as nat), 58, 60);
    lemma_extend(p, u16_bytes(r.msg1@[0] as nat) + u16_bytes(r.msg1@[1] as nat) + u16_bytes(r.msg1@[2] as nat) + u16_bytes(r.msg1@[3] as nat) + u16_bytes(r.msg1@[4] as nat) + u16_bytes(r.msg1@[5] as nat) + u16_bytes(r.msg1@[6] as nat) + u16_bytes(r.msg1@[7] as nat) + u16_bytes(r.msg2@[0] as nat) + u16_bytes(r.msg2@[1] as nat) + u16_bytes(r.msg2@[2] as nat) + u16_bytes(r.msg2@[3] as nat) + u16_bytes(r.msg2@[4] as nat) + u16_bytes(r.msg2@[5] as nat) + u16_bytes(r.msg2@[6] as nat) + u16_bytes(r.msg2@[7] as nat) + u16_bytes(r.msg3@[0] as nat) + u16_bytes(r.msg3@[1] as nat) + u16_bytes(r.msg3@[2] as nat) + u16_bytes(r.msg3@[3] as nat) + u16_bytes(r.msg3@[4] as nat) + u16_bytes(r.msg3@[5] as nat) + u16_bytes(r.msg3@[6] as nat) + u16_bytes(r.msg3@[7] as nat) + u16_bytes(r.msg4@[0] as nat) + u16_bytes(r.msg4@[1] as nat) + u16_bytes(r.msg4@[2] as nat) + u16_bytes(r.msg4@[3] as nat) + u16_bytes(r.msg4@[4] as nat) + u16_bytes(r.msg4@[5] as nat), u16_bytes(r.msg4@[6] as nat), 60, 62);
    lemma_extend(p, u16_bytes(r.msg1@[0] as nat) + u16_bytes(r.msg1@[1] as nat) + u16_bytes(r.msg1@[2] as nat) + u16_bytes(r.msg1@[3] as nat) + u16_bytes(r.msg1@[4] as nat) + u16_bytes(r.msg1@[5] as nat) + u16_bytes(r.msg1@[6] as nat) + u16_bytes(r.msg1@[7] as nat) + u16_bytes(r.msg2@[0] as nat) + u16_bytes(r.msg2@[1] as nat) + u16_bytes(r.msg2@[2] as nat) + u16_bytes(r.msg2@[3] as nat) + u16_bytes(r.msg2@[4] as nat) + u16_bytes(r.msg2@[5] as nat) + u16_bytes(r.msg2@[6] as nat) + u16_bytes(r.msg2@[7] as nat) + u16_bytes(r.msg3@[0] as nat) + u16_bytes(r.msg3@[1] as nat) + u16_bytes(r.msg3@[2] as nat) + u16_bytes(r.msg3@[3] as nat) + u16_bytes(r.msg3@[4] as nat) + u16_bytes(r.msg3@[5] as nat) + u16_bytes(r.msg3@[6] as nat) + u16_bytes(r.msg3@[7] as nat) + u16_bytes(r.msg4@[0] as nat) + u16_bytes(r.msg4@[1] as nat) + u16_bytes(r.msg4@[2] as nat) + u16_bytes(r.msg4@[3] as nat) + u16_bytes(r.msg4@[4] as nat) + u16_bytes(r.msg4@[5] as nat) + u16_bytes(r.msg4@[6] as nat), u16_bytes(r.msg4@[7] as nat), 62, 64);
    lemma_extend(p, u16_bytes(r.msg1@[0] as nat) + u16_bytes(r.msg1@[1] as nat) + u16_bytes(r.msg1@[2] as nat) + u16_bytes(r.msg1@[3] as nat) + u16_bytes(r.msg1@[4] as nat) + u16_bytes(r.msg1@[5] as nat) + u16_bytes(r.msg1@[6] as nat) + u16_bytes(r.msg1@[7] as nat) + u16_bytes(r.msg2@[0] as nat) + u16_bytes(r.msg2@[1] as nat) + u16_bytes(r.msg2@[2] as nat) + u16_bytes(r.msg2@[3] as nat) + u16_bytes(r.msg2@[4] as nat) + u16_bytes(r.msg2@[5] as nat) + u16_bytes(r.msg2@[6] as nat) + u16_bytes(r.msg2@[7] as nat) + u16_bytes(r.msg3@[0] as nat) + u16_bytes(r.msg3@[1] as nat) + u16_bytes(r.msg3@[2] as nat) + u16_bytes(r.msg3@[3] as nat) + u16_bytes(r.msg3@[4] as nat) + u16_bytes(r.msg3@[5] as nat) + u16_bytes(r.msg3@[6] as nat) + u16_bytes(r.msg3@[7] as nat) + u16_bytes(r.msg4@[0] as nat) + u16_bytes(r.msg4@[1] as nat) + u16_bytes(r.msg4@[2] as nat) + u16_bytes(r.msg4@[3] as nat) + u16_bytes(r.msg4@[4] as nat) + u16_bytes(r.msg4@[5] as nat) + u16_bytes(r.msg4@[6] as nat) + u16_bytes(r.msg4@[7] as nat), u16_bytes(r.msg5@[0] as nat), 64, 66);
    lemma_extend(p, u16_bytes(r.msg1@[0] as nat) + u16_bytes(r.msg1@[1] as nat) + u16_bytes(r.msg1@[2] as nat) + u16_bytes(r.msg1@[3] as nat) + u16_bytes(r.msg1@[4] as nat) + u16_bytes(r.msg1@[5] as nat) + u16_bytes(r.msg1@[6] as nat) + u16_bytes(r.msg1@[7] as nat) + u16_bytes(r.msg2@[0] as nat) + u16_bytes(r.msg2@[1] as nat) + u16_bytes(r.msg2@[2] as nat) + u16_bytes(r.msg2@[3] as nat) + u16_bytes(r.msg2@[4] as nat) + u16_bytes(r.msg2@[5] as nat) + u16_bytes(r.msg2@[6] as nat) + u16_bytes(r.msg2@[7] as nat) + u16_bytes(r.msg3@[0] as nat) + u16_bytes(r.msg3@[1] as nat) + u16_bytes(r.msg3@[2] as nat) + u16_bytes(r.msg3@[3] as nat) + u16_bytes(r.msg3@[4] as nat) + u16_bytes(r.msg3@[5] as nat) + u16_bytes(r.msg3@[6] as nat) + u16_bytes(r.msg3@[7] as nat) + u16_bytes(r.msg4@[0] as nat) + u16_bytes(r.msg4@[1] as nat) + u16_bytes(r.msg4@[2] as nat) + u16_bytes(r.msg4@[3] as nat) + u16_bytes(r.msg4@[4] as nat) + u16_bytes(r.msg4@[5] as nat) + u16_bytes(r.msg4@[6] as nat) + u16_bytes(r.msg4@[7] as nat) + u16_bytes(r.msg5@[0] as nat), u16_bytes(r.msg5@[1] as nat), 66, 68);
    lemma_extend(p, u16_bytes(r.msg1@[0] as nat) + u16_bytes(r.msg1@[1] as nat) + u16_bytes(r.msg1@[2] as nat) + u16_bytes(r.msg1@[3] as nat) + u16_bytes(r.msg1@[4] as nat) + u16_bytes(r.msg1@[5] as nat) + u16_bytes(r.msg1@[6] as nat) + u16_bytes(r.msg1@[7] as nat) + u16_bytes(r.msg2@[0] as nat) + u16_bytes(r.msg2@[1] as nat) + u16_bytes(r.msg2@[2] as nat) + u16_bytes(r.msg2@[3] as nat) + u16_bytes(r.msg2@[4] as nat) + u16_bytes(r.msg2@[5] as nat) + u16_bytes(r.msg2@[6] as nat) + u16_bytes(r.msg2@[7] as nat) + u16_bytes(r.msg3@[0] as nat) + u16_bytes(r.msg3@[1] as nat) + u16_bytes(r.msg3@[2] as nat) + u16_bytes(r.msg3@[3] as nat) + u16_bytes(r.msg3@[4] as nat) + u16_bytes(r.msg3@[5] as nat) + u16_bytes(r.msg3@[6] as nat) + u16_bytes(r.msg3@[7] as nat) + u16_bytes(r.msg4@[0] as nat) + u16_bytes(r.msg4@[1] as nat) + u16_bytes(r.msg4@[2] as nat) + u16_bytes(r.msg4@[3] as nat) + u16_bytes(r.msg4@[4] as nat) + u16_bytes(r.msg4@[5] as nat) + u16_bytes(r.msg4@[6] as nat) + u16_bytes(r.msg4@[7] as nat) + u16_bytes(r.msg5@[0] as nat) + u16_bytes(r.msg5@[1] as nat), u16_bytes(r.msg5@[2] as nat), 68, 70);
    lemma_extend(p, u16_bytes(r.msg1@[0] as nat) + u16_bytes(r.msg1@[1] as nat) + u16_bytes(r.msg1@[2] as nat) + u16_bytes(r.msg1@[3] as nat) + u16_bytes(r.msg1@[4] as nat) + u16_bytes(r.msg1@[5] as nat) + u16_bytes(r.msg1@[6] as nat) + u16_bytes(r.msg1@[7] as nat) + u16_bytes(r.msg2@[0] as nat) + u16_bytes(r.msg2@[1] as nat) + u16_bytes(r.msg2@[2] as nat) + u16_bytes(r.msg2@[3] as nat) + u16_bytes(r.msg2@[4] as nat) + u16_bytes(r.msg2@[5] as nat) + u16_bytes(r.msg2@[6] as nat) + u16_bytes(r.msg2@[7] as nat) + u16_bytes(r.msg3@[0] as nat) + u16_bytes(r.msg3@[1] as nat) + u16_bytes(r.msg3@[2] as nat) + u16_bytes(r.msg3@[3] as nat) + u16_bytes(r.msg3@[4] as nat) + u16_bytes(r.msg3@[5] as nat) + u16_bytes(r.msg3@[6] as nat) + u16_bytes(r.msg3@[7] as nat) + u16_bytes(r.msg4@[0] as nat) + u16_bytes(r.msg4@[1] as nat) + u16_bytes(r.msg4@[2] as nat) + u16_bytes(r.msg4@[3] as nat) + u16_bytes(r.msg4@[4] as nat) + u16_bytes(r.msg4@[5] as nat) + u16_bytes(r.msg4@[6] as nat) + u16_bytes(r.msg4@[7] as nat) + u16_bytes(r.msg5@[0] as nat) + u16_bytes(r.msg5@[1] as nat) + u16_bytes(r.msg5@[2] as nat), u16_bytes(r.msg5@[3] as nat), 70, 72);
    lemma_extend(p, u16_bytes(r.msg1@[0] as nat) + u16_bytes(r.msg1@[1] as nat) + u16_bytes(r.msg1@[2] as nat) + u16_bytes(r.msg1@[3] as nat) + u16_bytes(r.msg1@[4] as nat) + u16_bytes(r.msg1@[5] as nat) + u16_bytes(r.msg1@[6] as nat) + u16_bytes(r.msg1@[7] as nat) + u16_bytes(r.msg2@[0] as nat) + u16_bytes(r.msg2@[1] as nat) + u16_bytes(r.msg2@[2] as nat) + u16_bytes(r.msg2@[3] as nat) + u16_bytes(r.msg2@[4] as nat) + u16_bytes(r.msg2@[5] as nat) + u16_bytes(r.msg2@[6] as nat) + u16_bytes(r.msg2@[7] as nat) + u16_bytes(r.msg3@[0] as nat) + u16_bytes(r.msg3@[1] as nat) + u16_bytes(r.msg3@[2] as nat) + u16_bytes(r.msg3@[3] as nat) + u16_bytes(r.msg3@[4] as nat) + u16_bytes(r.msg3@[5] as nat) + u16_bytes(r.msg3@[6] as nat) + u16_bytes(r.msg3@[7] as nat) + u16_bytes(r.msg4@[0] as nat) + u16_bytes(r.msg4@[1] as nat) + u16_bytes(r.msg4@[2] as nat) + u16_bytes(r.msg4@[3] as nat) + u16_bytes(r.msg4@[4] as nat) + u16_bytes(r.msg4@[5] as nat) + u16_bytes(r.msg4@[6] as nat) + u16_bytes(r.msg4@[7] as nat) + u16_bytes(r.msg5@[0] as nat) + u16_bytes(r.msg5@[1] as nat) + u16_bytes(r.msg5@[2] as nat) + u16_bytes(r.msg5@[3] as nat), u16_bytes(r.msg5@[4] as nat), 72, 74);
    lemma_extend(p, u16_bytes(r.msg1@[0] as nat) + u16_bytes(r.msg1@[1] as nat) + u16_bytes(r.msg1@[2] as nat) + u16_bytes(r.msg1@[3] as nat) + u16_bytes(r.msg1@[4] as nat) + u16_bytes(r.msg1@[5] as nat) + u16_bytes(r.msg1@[6] as nat) + u16_bytes(r.msg1@[7] as nat) + u16_bytes(r.msg2@[0] as nat) + u16_bytes(r.msg2@[1] as nat) + u16_bytes(r.msg2@[2] as nat) + u16_bytes(r.msg2@[3] as nat) + u16_bytes(r.msg2@[4] as nat) + u16_bytes(r.msg2@[5] as nat) + u16_bytes(r.msg2@[6] as nat) + u16_bytes(r.msg2@[7] as nat) + u16_bytes(r.msg3@[0] as nat) + u16_bytes(r.msg3@[1] as nat) + u16_bytes(r.msg3@[2] as nat) + u16_bytes(r.msg3@[3] as nat) + u16_bytes(r.msg3@[4] as nat) + u16_bytes(r.msg3@[5] as nat) + u16_bytes(r.msg3@[6] as nat) + u16_bytes(r.msg3@[7] as nat) + u16_bytes(r.msg4@[0] as nat) + u16_bytes(r.msg4@[1] as nat) + u16_bytes(r.msg4@[2] as nat) + u16_bytes(r.msg4@[3] as nat) + u16_bytes(r.msg4@[4] as nat) + u16_bytes(r.msg4@[5] as nat) + u16_bytes(r.msg4@[6] as nat) + u16_bytes(r.msg4@[7] as nat) + u16_bytes(r.msg5@[0] as nat) + u16_bytes(r.msg5@[1] as nat) + u16_bytes(r.msg5@[2] as nat) + u16_bytes(r.msg5@[3] as nat) + u16_bytes(r.msg5@[4] as nat), u16_bytes(r.msg5@[5] as nat), 74, 76);
    lemma_extend(p, u16_bytes(r.msg1@[0] as nat) + u16_bytes(r.msg1@[1] as nat) + u16_bytes(r.msg1@[2] as nat) + u16_bytes(r.msg1@[3] as nat) + u16_bytes(r.msg1@[4] as nat) + u16_bytes(r.msg1@[5] as nat) + u16_bytes(r.msg1@[6] as nat) + u16_bytes(r.msg1@[7] as nat) + u16_bytes(r.msg2@[0] as nat) + u16_bytes(r.msg2@[1] as nat) + u16_bytes(r.msg2@[2] as nat) + u16_bytes(r.msg2@[3] as nat) + u16_bytes(r.msg2@[4] as nat) + u16_bytes(r.msg2@[5] as nat) + u16_bytes(r.msg2@[6] as nat) + u16_bytes(r.msg2@[7] as nat) + u16_bytes(r.msg3@[0] as nat) + u16_bytes(r.msg3@[1] as nat) + u16_bytes(r.msg3@[2] as nat) + u16_bytes(r.msg3@[3] as nat) + u16_bytes(r.msg3@[4] as nat) + u16_bytes(r.msg3@[5] as nat) + u16_bytes(r.msg3@[6] as nat) + u16_bytes(r.msg3@[7] as nat) + u16_bytes(r.msg4@[0] as nat) + u16_bytes(r.msg4@[1] as nat) + u16_bytes(r.msg4@[2] as nat) + u16_bytes(r.msg4@[3] as nat) + u16_bytes(r.msg4@[4] as nat) + u16_bytes(r.msg4@[5] as nat) + u16_bytes(r.msg4@[6] as nat) + u16_bytes(r.msg4@[7] as nat) + u16_bytes(r.msg5@[0] as nat) + u16_bytes(r.msg5@[1] as nat) + u16_bytes(r.msg5@[2] as nat) + u16_bytes(r.msg5@[3] as nat) + u16_bytes(r.msg5@[4] as nat) + u16_bytes(r.msg5@[5] as nat), u16_bytes(r.msg5@[6] as nat), 76, 78);
    lemma_extend(p, u16_bytes(r.msg1@[0] as nat) + u16_bytes(r.msg1@[1] as nat) + u16_bytes(r.msg1@[2] as nat) + u16_bytes(r.msg1@[3] as nat) + u16_bytes(r.msg1@[4] as nat) + u16_bytes(r.msg1@[5] as nat) + u16_bytes(r.msg1@[6] as nat) + u16_bytes(r.msg1@[7] as nat) + u16_bytes(r.msg2@[0] as nat) + u16_bytes(r.msg2@[1] as nat) + u16_bytes(r.msg2@[2] as nat) + u16_bytes(r.msg2@[3] as nat) + u16_bytes(r.msg2@[4] as nat) + u16_bytes(r.msg2@[5] as nat) + u16_bytes(r.msg2@[6] as nat) + u16_bytes(r.msg2@[7] as nat) + u16_bytes(r.msg3@[0] as nat) + u16_bytes(r.msg3@[1] as nat) + u16_bytes(r.msg3@[2] as nat) + u16_bytes(r.msg3@[3] as nat) + u16_bytes(r.msg3@[4] as nat) + u16_bytes(r.msg3@[5] as nat) + u16_bytes(r.msg3@[6] as nat) + u16_bytes(r.msg3@[7] as nat) + u16_bytes(r.msg4@[0] as nat) + u16_bytes(r.msg4@[1] as nat) + u16_bytes(r.msg4@[2] as nat) + u16_bytes(r.msg4@[3] as nat) + u16_bytes(r.msg4@[4] as nat) + u16_bytes(r.msg4@[5] as nat) + u16_bytes(r.msg4@[6] as nat) + u16_bytes(r.msg4@[7] as nat) + u16_bytes(r.msg5@[0] as nat) + u16_bytes(r.msg5@[1] as nat) + u16_bytes(r.msg5@[2] as nat) + u16_bytes(r.msg5@[3] as nat) + u16_bytes(r.msg5@[4] as nat) + u16_bytes(r.msg5@[5] as nat) + u16_bytes(r.msg5@[6] as nat), u16_bytes(r.msg5@[7] as nat), 78, 80);
    lemma_extend(p, u16_bytes(r.msg1@[0] as nat) + u16_bytes(r.msg1@[1] as nat) + u16_bytes(r.msg1@[2] as nat) + u16_bytes(r.msg1@[3] as nat) + u16_bytes(r.msg1@[4] as nat) + u16_bytes(r.msg1@[5] as nat) + u16_bytes(r.msg1@[6] as nat) + u16_bytes(r.msg1@[7] as nat) + u16_bytes(r.msg2@[0] as nat) + u16_bytes(r.msg2@[1] as nat) + u16_bytes(r.msg2@[2] as nat) + u16_bytes(r.msg2@[3] as nat) + u16_bytes(r.msg2@[4] as nat) + u16_bytes(r.msg2@[5] as nat) + u16_bytes(r.msg2@[6] as nat) + u16_bytes(r.msg2@[7] as nat) + u16_bytes(r.msg3@[0] as nat) + u16_bytes(r.msg3@[1] as nat) + u16_bytes(r.msg3@[2] as nat) + u16_bytes(r.msg3@[3] as nat) + u16_bytes(r.msg3@[4] as nat) + u16_bytes(r.msg3@[5] as nat) + u16_bytes(r.msg3@[6] as nat) + u16_bytes(r.msg3@[7] as nat) + u16_bytes(r.msg4@[0] as nat) + u16_bytes(r.msg4@[1] as nat) + u16_bytes(r.msg4@[2] as nat) + u16_bytes(r.msg4@[3] as nat) + u16_bytes(r.msg4@[4] as nat) + u16_bytes(r.msg4@[5] as nat) + u16_bytes(r.msg4@[6] as nat) + u16_bytes(r.msg4@[7] as nat) + u16_bytes(r.msg5@[0] as nat) + u16_bytes(r.msg5@[1] as nat) + u16_bytes(r.msg5@[2] as nat) + u16_bytes(r.msg5@[3] as nat) + u16_bytes(r.msg5@[4] as nat) + u16_bytes(r.msg5@[5] as nat) + u16_bytes(r.msg5@[6] as nat) + u16_bytes(r.msg5@[7] as nat), u16_bytes(r.msg6@[0] as nat), 80, 82);
    lemma_extend(p, u16_bytes(r.msg1@[0] as nat) + u16_bytes(r.msg1@[1] as nat) + u16_bytes(r.msg1@[2] as nat) + u16_bytes(r.msg1@[3] as nat) + u16_bytes(r.msg1@[4] as nat) + u16_bytes(r.msg1@[5] as nat) + u16_bytes(r.msg1@[6] as nat) + u16_bytes(r.msg1@[7] as nat) + u16_bytes(r.msg2@[0] as nat) + u16_bytes(r.msg2@[1] as nat) + u16_bytes(r.msg2@[2] as nat) + u16_bytes(r.msg2@[3] as nat) + u16_bytes(r.msg2@[4] as nat) + u16_bytes(r.msg2@[5] as nat) + u16_bytes(r.msg2@[6] as nat) + u16_bytes(r.msg2@[7] as nat) + u16_bytes(r.msg3@[0] as nat) + u16_bytes(r.msg3@[1] as nat) + u16_bytes(r.msg3@[2] as nat) + u16_bytes(r.msg3@[3] as nat) + u16_bytes(r.msg3@[4] as nat) + u16_bytes(r.msg3@[5] as nat) + u16_bytes(r.msg3@[6] as nat) + u16_bytes(r.msg3@[7] as nat) + u16_bytes(r.msg4@[0] as nat) + u16_bytes(r.msg4@[1] as nat) + u16_bytes(r.msg4@[2] as nat) + u16_bytes(r.msg4@[3] as nat) + u16_bytes(r.msg4@[4] as nat) + u16_bytes(r.msg4@[5] as nat) + u16_bytes(r.msg4@[6] as nat) + u16_bytes(r.msg4@[7] as nat) + u16_bytes(r.msg5@[0] as nat) + u16_bytes(r.msg5@[1] as nat) + u16_bytes(r.msg5@[2] as nat) + u16_bytes(r.msg5@[3] as nat) + u16_bytes(r.msg5@[4] as nat) + u16_bytes(r.msg5@[5] as nat) + u16_bytes(r.msg5@[6] as nat) + u16_bytes(r.msg5@[7] as nat) + u16_bytes(r.msg6@[0] as nat), u16_bytes(r.msg6@[1] as nat), 82, 84);
    lemma_extend(p, u16_bytes(r.msg1@[0] as nat) + u16_bytes(r.msg1@[1] as nat) + u16_bytes(r.msg1@[2] as nat) + u16_bytes(r.msg1@[3] as nat) + u16_bytes(r.msg1@[4] as nat) + u16_bytes(r.msg1@[5] as nat) + u16_bytes(r.msg1@[6] as nat) + u16_bytes(r.msg1@[7] as nat) + u16_bytes(r.msg2@[0] as nat) + u16_bytes(r.msg2@[1] as nat) + u16_bytes(r.msg2@[2] as nat) + u16_bytes(r.msg2@[3] as nat) + u16_bytes(r.msg2@[4] as nat) + u16_bytes(r.msg2@[5] as nat) + u16_bytes(r.msg2@[6] as nat) + u16_bytes(r.msg2@[7] as nat) + u16_bytes(r.msg3@[0] as nat) + u16_bytes(r.msg3@[1] as nat) + u16_bytes(r.msg3@[2] as nat) + u16_bytes(r.msg3@[3] as nat) + u16_bytes(r.msg3@[4] as nat) + u16_bytes(r.msg3@[5] as nat) + u16_bytes(r.msg3@[6] as nat) + u16_bytes(r.msg3@[7] as nat) + u16_bytes(r.msg4@[0] as nat) + u16_bytes(r.msg4@[1] as nat) + u16_bytes(r.msg4@[2] as nat) + u16_bytes(r.msg4@[3] as nat) + u16_bytes(r.msg4@[4] as nat) + u16_bytes(r.msg4@[5] as nat) + u16_bytes(r.msg4@[6] as nat) + u16_bytes(r.msg4@[7] as nat) + u16_bytes(r.msg5@[0] as nat) + u16_bytes(r.msg5@[1] as nat) + u16_bytes(r.msg5@[2] as nat) + u16_bytes(r.msg5@[3] as nat) + u16_bytes(r.msg5@[4] as nat) + u16_bytes(r.msg5@[5] as nat) + u16_bytes(r.msg5@[6] as nat) + u16_bytes(r.msg5@[7] as nat) + u16_bytes(r.msg6@[0] as nat) + u16_bytes(r.msg6@[1] as nat), u16_bytes(r.msg6@[2] as nat), 84, 86);
    lemma_extend(p, u16_bytes(r.msg1@[0] as nat) + u16_bytes(r.msg1@[1] as nat) + u16_bytes(r.msg1@[2] as nat) + u16_bytes(r.msg1@[3] as nat) + u16_bytes(r.msg1@[4] as nat) + u16_bytes(r.msg1@[5] as nat) + u16_bytes(r.msg1@[6] as nat) + u16_bytes(r.msg1@[7] as nat) + u16_bytes(r.msg2@[0] as nat) + u16_bytes(r.msg2@[1] as nat) + u16_bytes(r.msg2@[2] as nat) + u16_bytes(r.msg2@[3] as nat) + u16_bytes(r.msg2@[4] as nat) + u16_bytes(r.msg2@[5] as nat) + u16_bytes(r.msg2@[6] as nat) + u16_bytes(r.msg2@[7] as nat) + u16_bytes(r.msg3@[0] as nat) + u16_bytes(r.msg3@[1] as nat) + u16_bytes(r.msg3@[2] as nat) + u16_bytes(r.msg3@[3] as nat) + u16_bytes(r.msg3@[4] as nat) + u16_bytes(r.msg3@[5] as nat) + u16_bytes(r.msg3@[6] as nat) + u16_bytes(r.msg3@[7] as nat) + u16_bytes(r.msg4@[0] as nat) + u16_bytes(r.msg4@[1] as nat) + u16_bytes(r.msg4@[2] as nat) + u16_bytes(r.msg4@[3] as nat) + u16_bytes(r.msg4@[4] as nat) + u16_bytes(r.msg4@[5] as nat) + u16_bytes(r.msg4@[6] as nat) + u16_bytes(r.msg4@[7] as nat) + u16_bytes(r.msg5@[0] as nat) + u16_bytes(r.msg5@[1] as nat) + u16_bytes(r.msg5@[2] as nat) + u16_bytes(r.msg5@[3] as nat) + u16_bytes(r.msg5@[4] as nat) + u16_bytes(r.msg5@[5] as nat) + u16_bytes(r.msg5@[6] as nat) + u16_bytes(r.msg5@[7] as nat) + u16_bytes(r.msg6@[0] as nat) + u16_bytes(r.msg6@[1] as nat) + u16_bytes(r.msg6@[2] as nat), u16_bytes(r.msg6@[3] as nat), 86, 88);
    lemma_extend(p, u16_bytes(r.msg1@[0] as nat) + u16_bytes(r.msg1@[1] as nat) + u16_bytes(r.msg1@[2] as nat) + u16_bytes(r.msg1@[3] as nat) + u16_bytes(r.msg1@[4] as nat) + u16_bytes(r.msg1@[5] as nat) + u16_bytes(r.msg1@[6] as nat) + u16_bytes(r.msg1@[7] as nat) + u16_bytes(r.msg2@[0] as nat) + u16_bytes(r.msg2@[1] as nat) + u16_bytes(r.msg2@[2] as nat) + u16_bytes(r.msg2@[3] as nat) + u16_bytes(r.msg2@[4] as nat) + u16_bytes(r.msg2@[5] as nat) + u16_bytes(r.msg2@[6] as nat) + u16_bytes(r.msg2@[7] as nat) + u16_bytes(r.msg3@[0] as nat) + u16_bytes(r.msg3@[1] as nat) + u16_bytes(r.msg3@[2] as nat) + u16_bytes(r.msg3@[3] as nat) + u16_bytes(r.msg3@[4] as nat) + u16_bytes(r.msg3@[5] as nat) + u16_bytes(r.msg3@[6] as nat) + u16_bytes(r.msg3@[7] as nat) + u16_bytes(r.msg4@[0] as nat) + u16_bytes(r.msg4@[1] as nat) + u16_bytes(r.msg4@[2] as nat) + u16_bytes(r.msg4@[3] as nat) + u16_bytes(r.msg4@[4] as nat) + u16_bytes(r.msg4@[5] as nat) + u16_bytes(r.msg4@[6] as nat) + u16_bytes(r.msg4@[7] as nat) + u16_bytes(r.msg5@[0] as nat) + u16_bytes(r.msg5@[1] as nat) + u16_bytes(r.msg5@[2] as nat) + u16_bytes(r.msg5@[3] as nat) + u16_bytes(r.msg5@[4] as nat) + u16_bytes(r.msg5@[5] as nat) + u16_bytes(r.msg5@[6] as nat) + u16_bytes(r.msg5@[7] as nat) + u16_bytes(r.msg6@[0] as nat) + u16_bytes(r.msg6@[1] as nat) + u16_bytes(r.msg6@[2] as nat) + u16_bytes(r.msg6@[3] as nat), u16_bytes(r.msg6@[4] as nat), 88, 90);
    lemma_extend(p, u16_bytes(r.msg1@[0] as nat) + u16_bytes(r.msg1@[1] as nat) + u16_bytes(r.msg1@[2] as nat) + u16_bytes(r.msg1@[3] as nat) + u16_bytes(r.msg1@[4] as nat) + u16_bytes(r.msg1@[5] as nat) + u16_bytes(r.msg1@[6] as nat) + u16_bytes(r.msg1@[7] as nat) + u16_bytes(r.msg2@[0] as nat) + u16_bytes(r.msg2@[1] as nat) + u16_bytes(r.msg2@[2] as nat) + u16_bytes(r.msg2@[3] as nat) + u16_bytes(r.msg2@[4] as nat) + u16_bytes(r.msg2@[5] as nat) + u16_bytes(r.msg2@[6] as nat) + u16_bytes(r.msg2@[7] as nat) + u16_bytes(r.msg3@[0] as nat) + u16_bytes(r.msg3@[1] as nat) + u16_bytes(r.msg3@[2] as nat) + u16_bytes(r.msg3@[3] as nat) + u16_bytes(r.msg3@[4] as nat) + u16_bytes(r.msg3@[5] as nat) + u16_bytes(r.msg3@[6] as nat) + u16_bytes(r.msg3@[7] as nat) + u16_bytes(r.msg4@[0] as nat) + u16_bytes(r.msg4@[1] as nat) + u16_bytes(r.msg4@[2] as nat) + u16_bytes(r.msg4@[3] as nat) + u16_bytes(r.msg4@[4] as nat) + u16_bytes(r.msg4@[5] as nat) + u16_bytes(r.msg4@[6] as nat) + u16_bytes(r.msg4@[7] as nat) + u16_bytes(r.msg5@[0] as nat) + u16_bytes(r.msg5@[1] as nat) + u16_bytes(r.msg5@[2] as nat) + u16_bytes(r.msg5@[3] as nat) + u16_bytes(r.msg5@[4] as nat) + u16_bytes(r.msg5@[5] as nat) + u16_bytes(r.msg5@[6] as nat) + u16_bytes(r.msg5@[7] as nat) + u16_bytes(r.msg6@[0] as nat) + u16_bytes(r.msg6@[1] as nat) + u16_bytes(r.msg6@[2] as nat) + u16_bytes(r.msg6@[3] as nat) + u16_bytes(r.msg6@[4] as nat), u16_bytes(r.msg6@[5] as nat), 90, 92);
    lemma_extend(p, u16_bytes(r.msg1@[0] as nat) + u16_bytes(r.msg1@[1] as nat) + u16_bytes(r.msg1@[2] as nat) + u16_bytes(r.msg1@[3] as nat) + u16_bytes(r.msg1@[4] as nat) + u16_bytes(r.msg1@[5] as nat) + u16_bytes(r.msg1@[6] as nat) + u16_bytes(r.msg1@[7] as nat) + u16_bytes(r.msg2@[0] as nat) + u16_bytes(r.msg2@[1] as nat) + u16_bytes(r.msg2@[2] as nat) + u16_bytes(r.msg2@[3] as nat) + u16_bytes(r.msg2@[4] as nat) + u16_bytes(r.msg2@[5] as nat) + u16_bytes(r.msg2@[6] as nat) + u16_bytes(r.msg2@[7] as nat) + u16_bytes(r.msg3@[0] as nat) + u16_bytes(r.msg3@[1] as nat) + u16_bytes(r.msg3@[2] as nat) + u16_bytes(r.msg3@[3] as nat) + u16_bytes(r.msg3@[4] as nat) + u16_bytes(r.msg3@[5] as nat) + u16_bytes(r.msg3@[6] as nat) + u16_bytes(r.msg3@[7] as nat) + u16_bytes(r.msg4@[0] as nat) + u16_bytes(r.msg4@[1] as nat) + u16_bytes(r.msg4@[2] as nat) + u16_bytes(r.msg4@[3] as nat) + u16_bytes(r.msg4@[4] as nat) + u16_bytes(r.msg4@[5] as nat) + u16_bytes(r.msg4@[6] as nat) + u16_bytes(r.msg4@[7] as nat) + u16_bytes(r.msg5@[0] as nat) + u16_bytes(r.msg5@[1] as nat) + u16_bytes(r.msg5@[2] as nat) + u16_bytes(r.msg5@[3] as nat) + u16_bytes(r.msg5@[4] as nat) + u16_bytes(r.msg5@[5] as nat) + u16_bytes(r.msg5@[6] as nat) + u16_bytes(r.msg5@[7] as nat) + u16_bytes(r.msg6@[0] as nat) + u16_bytes(r.msg6@[1] as nat) + u16_bytes(r.msg6@[2] as nat) + u16_bytes(r.msg6@[3] as nat) + u16_bytes(r.msg6@[4] as nat) + u16_bytes(r.msg6@[5] as nat), u16_bytes(r.msg6@[6] as nat), 92, 94);
    lemma_extend(p, u16_bytes(r.msg1@[0] as nat) + u16_bytes(r.msg1@[1] as nat) + u16_bytes(r.msg1@[2] as nat) + u16_bytes(r.msg1@[3] as nat) + u16_bytes(r.msg1@[4] as nat) + u16_bytes(r.msg1@[5] as nat) + u16_bytes(r.msg1@[6] as nat) + u16_bytes(r.msg1@[7] as nat) + u16_bytes(r.msg2@[0] as nat) + u16_bytes(r.msg2@[1] as nat) + u16_bytes(r.msg2@[2] as nat) + u16_bytes(r.msg2@[3] as nat) + u16_bytes(r.msg2@[4] as nat) + u16_bytes(r.msg2@[5] as nat) + u16_bytes(r.msg2@[6] as nat) + u16_bytes(r.msg2@[7] as nat) + u16_bytes(r.msg3@[0] as nat) + u16_bytes(r.msg3@[1] as nat) + u16_bytes(r.msg3@[2] as nat) + u16_bytes(r.msg3@[3] as nat) + u16_bytes(r.msg3@[4] as nat) + u16_bytes(r.msg3@[5] as nat) + u16_bytes(r.msg3@[6] as nat) + u16_bytes(r.msg3@[7] as nat) + u16_bytes(r.msg4@[0] as nat) + u16_bytes(r.msg4@[1] as nat) + u16_bytes(r.msg4@[2] as nat) + u16_bytes(r.msg4@[3] as nat) + u16_bytes(r.msg4@[4] as nat) + u16_bytes(r.msg4@[5] as nat) + u16_bytes(r.msg4@[6] as nat) + u16_bytes(r.msg4@[7] as nat) + u16_bytes(r.msg5@[0] as nat) + u16_bytes(r.msg5@[1] as nat) + u16_bytes(r.msg5@[2] as nat) + u16_bytes(r.msg5@[3] as nat) + u16_bytes(r.msg5@[4] as nat) + u16_bytes(r.msg5@[5] as nat) + u16_bytes(r.msg5@[6] as nat) + u16_bytes(r.msg5@[7] as nat) + u16_bytes(r.msg6@[0] as nat) + u16_bytes(r.msg6@[1] as nat) + u16_bytes(r.msg6@[2] as nat) + u16_bytes(r.msg6@[3] as nat) + u16_bytes(r.msg6@[4] as nat) + u16_bytes(r.msg6@[5] as nat) + u16_bytes(r.msg6@[6] as nat), u16_bytes(r.msg6@[7] as nat), 94, 96);
    lemma_extend(p, u16_bytes(r.msg1@[0] as nat) + u16_bytes(r.msg1@[1] as nat) + u16_bytes(r.msg1@[2] as nat) + u16_bytes(r.msg1@[3] as nat) + u16_bytes(r.msg1@[4] as nat) + u16_bytes(r.msg1@[5] as nat) + u16_bytes(r.msg1@[6] as nat) + u16_bytes(r.msg1@[7] as nat) + u16_bytes(r.msg2@[0] as nat) + u16_bytes(r.msg2@[1] as nat) + u16_bytes(r.msg2@[2] as nat) + u16_bytes(r.msg2@[3] as nat) + u16_bytes(r.msg2@[4] as nat) + u16_bytes(r.msg2@[5] as nat) + u16_bytes(r.msg2@[6] as nat) + u16_bytes(r.msg2@[7] as nat) + u16_bytes(r.msg3@[0] as nat) + u16_bytes(r.msg3@[1] as nat) + u16_bytes(r.msg3@[2] as nat) + u16_bytes(r.msg3@[3] as nat) + u16_bytes(r.msg3@[4] as nat) + u16_bytes(r.msg3@[5] as nat) + u16_bytes(r.msg3@[6] as nat) + u16_bytes(r.msg3@[7] as nat) + u16_bytes(r.msg4@[0] as nat) + u16_bytes(r.msg4@[1] as nat) + u16_bytes(r.msg4@[2] as nat) + u16_bytes(r.msg4@[3] as nat) + u16_bytes(r.msg4@[4] as nat) + u16_bytes(r.msg4@[5] as nat) + u16_bytes(r.msg4@[6] as nat) + u16_bytes(r.msg4@[7] as nat) + u16_bytes(r.msg5@[0] as nat) + u16_bytes(r.msg5@[1] as nat) + u16_bytes(r.msg5@[2] as nat) + u16_bytes(r.msg5@[3] as nat) + u16_bytes(r.msg5@[4] as nat) + u16_bytes(r.msg5@[5] as nat) + u16_bytes(r.msg5@[6] as nat) + u16_bytes(r.msg5@[7] as nat) + u16_bytes(r.msg6@[0] as nat) + u16_bytes(r.msg6@[1] as nat) + u16_bytes(r.msg6@[2] as nat) + u16_bytes(r.msg6@[3] as nat) + u16_bytes(r.msg6@[4] as nat) + u16_bytes(r.msg6@[5] as nat) + u16_bytes(r.msg6@[6] as nat) + u16_bytes(r.msg6@[7] as nat), u32_bytes(r.skipped@[0] as nat), 96, 100);
    lemma_extend(p, u16_bytes(r.msg1@[0] as nat) + u16_bytes(r.msg1@[1] as nat) + u16_bytes(r.msg1@[2] as nat) + u16_bytes(r.msg1@[3] as nat) + u16_bytes(r.msg1@[4] as nat) + u16_bytes(r.msg1@[5] as nat) + u16_bytes(r.msg1@[6] as nat) + u16_bytes(r.msg1@[7] as nat) + u16_bytes(r.msg2@[0] as nat) + u16_bytes(r.msg2@[1] as nat) + u16_bytes(r.msg2@[2] as nat) + u16_bytes(r.msg2@[3] as nat) + u16_bytes(r.msg2@[4] as nat) + u16_bytes(r.msg2@[5] as nat) + u16_bytes(r.msg2@[6] as nat) + u16_bytes(r.msg2@[7] as nat) + u16_bytes(r.msg3@[0] as nat) + u16_bytes(r.msg3@[1] as nat) + u16_bytes(r.msg3@[2] as nat) + u16_bytes(r.msg3@[3] as nat) + u16_bytes(r.msg3@[4] as nat) + u16_bytes(r.msg3@[5] as nat) + u16_bytes(r.msg3@[6] as nat) + u16_bytes(r.msg3@[7] as nat) + u16_bytes(r.msg4@[0] as nat) + u16_bytes(r.msg4@[1] as nat) + u16_bytes(r.msg4@[2] as nat) + u16_bytes(r.msg4@[3] as nat) + u16_bytes(r.msg4@[4] as nat) + u16_bytes(r.msg4@[5] as nat) + u16_bytes(r.msg4@[6] as nat) + u16_bytes(r.msg4@[7] as nat) + u16_bytes(r.msg5@[0] as nat) + u16_bytes(r.msg5@[1] as nat) + u16_bytes(r.msg5@[2] as nat) + u16_bytes(r.msg5@[3] as nat) + u16_bytes(r.msg5@[4] as nat) + u16_bytes(r.msg5@[5] as nat) + u16_bytes(r.msg5@[6] as nat) + u16_bytes(r.msg5@[7] as nat) + u16_bytes(r.msg6@[0] as nat) + u16_bytes(r.msg6@[1] as nat) + u16_bytes(r.msg6@[2] as nat) + u16_bytes(r.msg6@[3] as nat) + u16_bytes(r.msg6@[4] as nat) + u16_bytes(r.msg6@[5] as nat) + u16_bytes(r.msg6@[6] as nat) + u16_bytes(r.msg6@[7] as nat) + u32_bytes(r.skipped@[0] as nat), u32_bytes(r.skipped@[1] as nat), 100, 104);
    lemma_extend(p, u16_bytes(r.msg1@[0] as nat) + u16_bytes(r.msg1@[1] as nat) + u16_bytes(r.msg1@[2] as nat) + u16_bytes(r.msg1@[3] as nat) + u16_bytes(r.msg1@[4] as nat) + u16_bytes(r.msg1@[5] as nat) + u16_bytes(r.msg1@[6] as nat) + u16_bytes(r.msg1@[7] as nat) + u16_bytes(r.msg2@[0] as nat) + u16_bytes(r.msg2@[1] as nat) + u16_bytes(r.msg2@[2] as nat) + u16_bytes(r.msg2@[3] as nat) + u16_bytes(r.msg2@[4] as nat) + u16_bytes(r.msg2@[5] as nat) + u16_bytes(r.msg2@[6] as nat) + u16_bytes(r.msg2@[7] as nat) + u16_bytes(r.msg3@[0] as nat) + u16_bytes(r.msg3@[1] as nat) + u16_bytes(r.msg3@[2] as nat) + u16_bytes(r.msg3@[3] as nat) + u16_bytes(r.msg3@[4] as nat) + u16_bytes(r.msg3@[5] as nat) + u16_bytes(r.msg3@[6] as nat) + u16_bytes(r.msg3@[7] as nat) + u16_bytes(r.msg4@[0] as nat) + u16_bytes(r.msg4@[1] as nat) + u16_bytes(r.msg4@[2] as nat) + u16_bytes(r.msg4@[3] as nat) + u16_bytes(r.msg4@[4] as nat) + u16_bytes(r.msg4@[5] as nat) + u16_bytes(r.msg4@[6] as nat) + u16_bytes(r.msg4@[7] as nat) + u16_bytes(r.msg5@[0] as nat) + u16_bytes(r.msg5@[1] as nat) + u16_bytes(r.msg5@[2] as nat) + u16_bytes(r.msg5@[3] as nat) + u16_bytes(r.msg5@[4] as nat) + u16_bytes(r.msg5@[5] as nat) + u16_bytes(r.msg5@[6] as nat) + u16_bytes(r.msg5@[7] as nat) + u16_bytes(r.msg6@[0] as nat) + u16_bytes(r.msg6@[1] as nat) + u16_bytes(r.msg6@[2] as nat) + u16_bytes(r.msg6@[3] as nat) + u16_bytes(r.msg6@[4] as nat) + u16_bytes(r.msg6@[5] as nat) + u16_bytes(r.msg6@[6] as nat) + u16_bytes(r.msg6@[7] as nat) + u32_bytes(r.skipped@[0] as nat) + u32_bytes(r.skipped@[1] as nat), u32_bytes(r.skipped@[2] as nat), 104, 108);
    lemma_extend(p, u16_bytes(r.msg1@[0] as nat) + u16_bytes(r.msg1@[1] as nat) + u16_bytes(r.msg1@[2] as nat) + u16_bytes(r.msg1@[3] as nat) + u16_bytes(r.msg1@[4] as nat) + u16_bytes(r.msg1@[5] as nat) + u16_bytes(r.msg1@[6] as nat) + u16_bytes(r.msg1@[7] as nat) + u16_bytes(r.msg2@[0] as nat) + u16_bytes(r.msg2@[1] as nat) + u16_bytes(r.msg2@[2] as nat) + u16_bytes(r.msg2@[3] as nat) + u16_bytes(r.msg2@[4] as nat) + u16_bytes(r.msg2@[5] as nat) + u16_bytes(r.msg2@[6] as nat) + u16_bytes(r.msg2@[7] as nat) + u16_bytes(r.msg3@[0] as nat) + u16_bytes(r.msg3@[1] as nat) + u16_bytes(r.msg3@[2] as nat) + u16_bytes(r.msg3@[3] as nat) + u16_bytes(r.msg3@[4] as nat) + u16_bytes(r.msg3@[5] as nat) + u16_bytes(r.msg3@[6] as nat) + u16_bytes(r.msg3@[7] as nat) + u16_bytes(r.msg4@[0] as nat) + u16_bytes(r.msg4@[1] as nat) + u16_bytes(r.msg4@[2] as nat) + u16_bytes(r.msg4@[3] as nat) + u16_bytes(r.msg4@[4] as nat) + u16_bytes(r.msg4@[5] as nat) + u16_bytes(r.msg4@[6] as nat) + u16_bytes(r.msg4@[7] as nat) + u16_bytes(r.msg5@[0] as nat) + u16_bytes(r.msg5@[1] as nat) + u16_bytes(r.msg5@[2] as nat) + u16_bytes(r.msg5@[3] as nat) + u16_bytes(r.msg5@[4] as nat) + u16_bytes(r.msg5@[5] as nat) + u16_bytes(r.msg5@[6] as nat) + u16_bytes(r.msg5@[7] as nat) + u16_bytes(r.msg6@[0] as nat) + u16_bytes(r.msg6@[1] as nat) + u16_bytes(r.msg6@[2] as nat) + u16_bytes(r.msg6@[3] as nat) + u16_bytes(r.msg6@[4] as nat) + u16_bytes(r.msg6@[5] as nat) + u16_bytes(r.msg6@[6] as nat) + u16_bytes(r.msg6@[7] as nat) + u32_bytes(r.skipped@[0] as nat) + u32_bytes(r.skipped@[1] as nat) + u32_bytes(r.skipped@[2] as nat), u32_bytes(r.skipped@[3] as nat), 108, 112);
    lemma_extend(p, u16_bytes(r.msg1@[0] as nat) + u16_bytes(r.msg1@[1] as nat) + u16_bytes(r.msg1@[2] as nat) + u16_bytes(r.msg1@[3] as nat) + u16_bytes(r.msg1@[4] as nat) + u16_bytes(r.msg1@[5] as nat) + u16_bytes(r.msg1@[6] as nat) + u16_bytes(r.msg1@[7] as nat) + u16_bytes(r.msg2@[0] as nat) + u16_bytes(r.msg2@[1] as nat) + u16_bytes(r.msg2@[2] as nat) + u16_bytes(r.msg2@[3] as nat) + u16_bytes(r.msg2@[4] as nat) + u16_bytes(r.msg2@[5] as nat) + u16_bytes(r.msg2@[6] as nat) + u16_bytes(r.msg2@[7] as nat) + u16_bytes(r.msg3@[0] as nat) + u16_bytes(r.msg3@[1] as nat) + u16_bytes(r.msg3@[2] as nat) + u16_bytes(r.msg3@[3] as nat) + u16_bytes(r.msg3@[4] as nat) + u16_bytes(r.msg3@[5] as nat) + u16_bytes(r.msg3@[6] as nat) + u16_bytes(r.msg3@[7] as nat) + u16_bytes(r.msg4@[0] as nat) + u16_bytes(r.msg4@[1] as nat) + u16_bytes(r.msg4@[2] as nat) + u16_bytes(r.msg4@[3] as nat) + u16_bytes(r.msg4@[4] as nat) + u16_bytes(r.msg4@[5] as nat) + u16_bytes(r.msg4@[6] as nat) + u16_bytes(r.msg4@[7] as nat) + u16_bytes(r.msg5@[0] as nat) + u16_bytes(r.msg5@[1] as nat) + u16_bytes(r.msg5@[2] as nat) + u16_bytes(r.msg5@[3] as nat) + u16_bytes(r.msg5@[4] as nat) + u16_bytes(r.msg5@[5] as nat) + u16_bytes(r.msg5@[6] as nat) + u16_bytes(r.msg5@[7] as nat) + u16_bytes(r.msg6@[0] as nat) + u16_bytes(r.msg6@[1] as nat) + u16_bytes(r.msg6@[2] as nat) + u16_bytes(r.msg6@[3] as nat) + u16_bytes(r.msg6@[4] as nat) + u16_bytes(r.msg6@[5] as nat) + u16_bytes(r.msg6@[6] as nat) + u16_bytes(r.msg6@[7] as nat) + u32_bytes(r.skipped@[0] as nat) + u32_bytes(r.skipped@[1] as nat) + u32_bytes(r.skipped@[2] as nat) + u32_bytes(r.skipped@[3] as nat), u32_bytes(r.skipped@[4] as nat), 112, 116);
    lemma_extend(p, u16_bytes(r.msg1@[0] as nat) + u16_bytes(r.msg1@[1] as nat) + u16_bytes(r.msg1@[2] as nat) + u16_bytes(r.msg1@[3] as nat) + u16_bytes(r.msg1@[4] as nat) + u16_bytes(r.msg1@[5] as nat) + u16_bytes(r.msg1@[6] as nat) + u16_bytes(r.msg1@[7] as nat) + u16_bytes(r.msg2@[0] as nat) + u16_bytes(r.msg2@[1] as nat) + u16_bytes(r.msg2@[2] as nat) + u16_bytes(r.msg2@[3] as nat) + u16_bytes(r.msg2@[4] as nat) + u16_bytes(r.msg2@[5] as nat) + u16_bytes(r.msg2@[6] as nat) + u16_bytes(r.msg2@[7] as nat) + u16_bytes(r.msg3@[0] as nat) + u16_bytes(r.msg3@[1] as nat) + u16_bytes(r.msg3@[2] as nat) + u16_bytes(r.msg3@[3] as nat) + u16_bytes(r.msg3@[4] as nat) + u16_bytes(r.msg3@[5] as nat) + u16_bytes(r.msg3@[6] as nat) + u16_bytes(r.msg3@[7] as nat) + u16_bytes(r.msg4@[0] as nat) + u16_bytes(r.msg4@[1] as nat) + u16_bytes(r.msg4@[2] as nat) + u16_bytes(r.msg4@[3] as nat) + u16_bytes(r.msg4@[4] as nat) + u16_bytes(r.msg4@[5] as nat) + u16_bytes(r.msg4@[6] as nat) + u16_bytes(r.msg4@[7] as nat) + u16_bytes(r.msg5@[0] as nat) + u16_bytes(r.msg5@[1] as nat) + u16_bytes(r.msg5@[2] as nat) + u16_bytes(r.msg5@[3] as nat) + u16_bytes(r.msg5@[4] as nat) + u16_bytes(r.msg5@[5] as nat) + u16_bytes(r.msg5@[6] as nat) + u16_bytes(r.msg5@[7] as nat) + u16_bytes(r.msg6@[0] as nat) + u16_bytes(r.msg6@[1] as nat) + u16_bytes(r.msg6@[2] as nat) + u16_bytes(r.msg6@[3] as nat) + u16_bytes(r.msg6@[4] as nat) + u16_bytes(r.msg6@[5] as nat) + u16_bytes(r.msg6@[6] as nat) + u16_bytes(r.msg6@[7] as nat) + u32_bytes(r.skipped@[0] as nat) + u32_bytes(r.skipped@[1] as nat) + u32_bytes(r.skipped@[2] as nat) + u32_bytes(r.skipped@[3] as nat) + u32_bytes(r.skipped@[4] as nat), u32_bytes(r.skipped@[5] as nat), 116, 120);
    assert(p.subrange(0, 120) =~= p);
}

/// Traffic counters of one port, as MON-COMMS reports them (40 bytes).
#[derive(Debug, Clone, Copy)]
pub struct CommsBlock {
    pub port_id: u16,
    pub tx_pending: u16,
    pub tx_bytes: u32,
    pub tx_usage: u8,
    pub tx_peak_usage: u8,
    pub rx_pending: u16,
    pub rx_bytes: u32,
    pub rx_usage: u8,
    pub rx_peak_usage: u8,
    pub overrun_errs: u16,
    pub msgs: [u16; 4],
    pub res2: [u8; 8],
    pub skipped: u32,
}

impl CommsBlock {
    #[verifier::opaque]
    pub open spec fn spec_payload(&self) -> Seq<u8> {
        u16_bytes(self.port_id as nat)
            + u16_bytes(self.tx_pending as nat)
            + u32_bytes(self.tx_bytes as nat)
            + seq![self.tx_usage]
            + seq![self.tx_peak_usage]
            + u16_bytes(self.rx_pending as nat)
            + u32_bytes(self.rx_bytes as nat)
            + seq![self.rx_usage]
            + seq![self.rx_peak_usage]
            + u16_bytes(self.overrun_errs as nat)
            + u16_bytes(self.msgs@[0] as nat)
            + u16_bytes(self.msgs@[1] as nat)
            + u16_bytes(self.msgs@[2] as nat)
            + u16_bytes(self.msgs@[3] as nat)
            + seq![self.res2@[0]]
            + seq![self.res2@[1]]
            + seq![self.res2@[2]]
            + seq![self.res2@[3]]
            + seq![self.res2@[4]]
            + seq![self.res2@[5]]
            + seq![self.res2@[6]]
            + seq![self.res2@[7]]
            + u32_bytes(self.skipped as nat)
    }

    /// Reads a payload of exactly 40 bytes.
    pub fn from_bytes(p: &[u8]) -> (r: CommsBlock)
        requires
            p@.len() == 40,
        ensures
            r.spec_payload() == p@,
    {
        let port_id = take_u16(p, 0);
        let tx_pending = take_u16(p, 2);
        let tx_bytes = take_u32(p, 4);
        let tx_usage = take_u8(p, 8);
        let tx_peak_usage = take_u8(p, 9);
        let rx_pending = take_u16(p, 10);
        let rx_bytes = take_u32(p, 12);
        let rx_usage = take_u8(p, 16);
        let rx_peak_usage = take_u8(p, 17);
        let overrun_errs = take_u16(p, 18);
        let msgs_0 = take_u16(p, 20);
        let msgs_1 = take_u16(p, 22);
        let msgs_2 = take_u16(p, 24);
        let msgs_3 = take_u16(p, 26);
        let res2_0 = take_u8(p, 28);
        let res2_1 = take_u8(p, 29);
        let res2_2 = take_u8(p, 30);
        let res2_3 = take_u8(p, 31);
        let res2_4 = take_u8(p, 32);
        let res2_5 = take_u8(p, 33);
        let res2_6 = take_u8(p, 34);
        let res2_7 = take_u8(p, 35);
        let skipped = take_u32(p, 36);
        let r = CommsBlock {
            port_id,
            tx_pending,
            tx_bytes,
            tx_usage,
            tx_peak_usage,
            rx_pending,
            rx_bytes,
            rx_usage,
            rx_peak_usage,
            overrun_errs,
            msgs: [msgs_0, msgs_1, msgs_2, msgs_3],
            res2: [res2_0, res2_1, res2_2, res2_3, res2_4, res2_5, res2_6, res2_7],
            skipped,
        };
        proof {
            lemma_commsblock_bytes(r, p@);
        }
        r
    }

    /// Appends the 40-byte payload.
    pub fn write_bytes(&self, out: &mut Vec<u8>)
        ensures
            final(out)@ == old(out)@ + self.spec_payload(),
    {
        let mut buf: Vec<u8> = Vec::new();
        write_u16(self.port_id, &mut buf);
        write_u16(self.tx_pending, &mut buf);
        write_u32(self.tx_bytes, &mut buf);
        buf.push(self.tx_usage);
        buf.push(self.tx_peak_usage);
        write_u16(self.rx_pending, &mut buf);
        write_u32(self.rx_bytes, &mut buf);
        buf.push(self.rx_usage);
        buf.push(self.rx_peak_usage);
        write_u16(self.overrun_errs, &mut buf);
        write_u16(self.msgs[0], &mut buf);
        write_u16(self.msgs[1], &mut buf);
        write_u16(self.msgs[2], &mut buf);
        write_u16(self.msgs[3], &mut buf);
        buf.push(self.res2[0]);
        buf.push(self.res2[1]);
        buf.push(self.res2[2]);
        buf.push(self.res2[3]);
        buf.push(self.res2[4]);
        buf.push(self.res2[5]);
        buf.push(self.res2[6]);
        buf.push(self.res2[7]);
        write_u32(self.skipped, &mut buf);
        proof {
            reveal(CommsBlock::spec_payload);
            assert(buf@ =~= self.spec_payload());
        }
        write_all(buf.as_slice(), out);
    }
}

proof fn lemma_commsblock_bytes(r: CommsBlock, p: Seq<u8>)
    requires
        p.len() == 40,
        u16_bytes(r.port_id as nat) == p.subrange(0, 2),
        u16_bytes(r.tx_pending as nat) == p.subrange(2, 4),
        u32_bytes(r.tx_bytes as nat) == p.subrange(4, 8),
        seq![r.tx_usage] == p.subrange(8, 9),
        seq![r.tx_peak_usage] == p.subrange(9, 10),
        u16_bytes(r.rx_pending as nat) == p.subrange(10, 12),
        u32_bytes(r.rx_bytes as nat) == p.subrange(12, 16),
        seq![r.rx_usage] == p.subrange(16, 17),
        seq![r.rx_peak_usage] == p.subrange(17, 18),
        u16_bytes(r.overrun_errs as nat) == p.subrange(18, 20),
        u16_bytes(r.msgs@[0] as nat) == p.subrange(20, 22),
        u16_bytes(r.msgs@[1] as nat) == p.subrange(22, 24),
        u16_bytes(r.msgs@[2] as nat) == p.subrange(24, 26),
        u16_bytes(r.msgs@[3] as nat) == p.subrange(26, 28),
        seq![r.res2@[0]] == p.subrange(28, 29),
        seq![r.res2@[1]] == p.subrange(29, 30),
        seq![r.res2@[2]] == p.subrange(30, 31),
        seq![r.res2@[3]] == p.subrange(31, 32),
        seq![r.res2@[4]] == p.subrange(32, 33),
        seq![r.res2@[5]] == p.subrange(33, 34),
        seq![r.res2@[6]] == p.subrange(34, 35),
        seq![r.res2@[7]] == p.subrange(35, 36),
        u32_bytes(r.skipped as nat) == p.subrange(36, 40),
    ensures
        r.spec_payload() == p,
{
    reveal(CommsBlock::spec_payload);
    assert(p.subrange(0, 0) =~= Seq::<u8>::empty());
    lemma_extend(p, Seq::empty(), u16_bytes(r.port_id as nat), 0, 2);
    assert(Seq::<u8>::empty() + u16_bytes(r.port_id as nat) =~= u16_bytes(r.port_id as nat));
    lemma_extend(p, u16_bytes(r.port_id as nat), u16_bytes(r.tx_pending as nat), 2, 4);
    lemma_extend(p, u16_bytes(r.port_id as nat) + u16_bytes(r.tx_pending as nat), u32_bytes(r.tx_bytes as nat), 4, 8);
    lemma_extend(p, u16_bytes(r.port_id as nat) + u16_bytes(r.tx_pending as nat) + u32_bytes(r.tx_bytes as nat), seq![r.tx_usage], 8, 9);
    lemma_extend(p, u16_bytes(r.port_id as nat) + u16_bytes(r.tx_pending as nat) + u32_bytes(r.tx_bytes as nat) + seq![r.tx_usage], seq![r.tx_peak_usage], 9, 10);
    lemma_extend(p, u16_bytes(r.port_id as nat) + u16_bytes(r.tx_pending as nat) + u32_bytes(r.tx_bytes as nat) + seq![r.tx_usage] + seq![r.tx_peak_usage], u16_bytes(r.rx_pending as nat), 10, 12);
    lemma_extend(p, u16_bytes(r.port_id as nat) + u16_bytes(r.tx_pending as nat) + u32_bytes(r.tx_bytes as nat) + seq![r.tx_usage] + seq![r.tx_peak_usage] + u16_bytes(r.rx_pending as nat), u32_bytes(r.rx_bytes as nat), 12, 16);
    lemma_extend(p, u16_bytes(r.port_id as nat) + u16_bytes(r.tx_pending as nat) + u32_bytes(r.tx_bytes as nat) + seq![r.tx_usage] + seq![r.tx_peak_usage] + u16_bytes(r.rx_pending as nat) + u32_bytes(r.rx_bytes as nat), seq![r.rx_usage], 16, 17);
    lemma_extend(p, u16_bytes(r.port_id as nat) + u16_bytes(r.tx_pending as nat) + u32_bytes(r.tx_bytes as nat) + seq![r.tx_usage] + seq![r.tx_peak_usage] + u16_bytes(r.rx_pending as nat) + u32_bytes(r.rx_bytes as nat) + seq![r.rx_usage], seq![r.rx_peak_usage], 17, 18);
    lemma_extend(p, u16_bytes(r.port_id as nat) + u16_bytes(r.tx_pending as nat) + u32_bytes(r.tx_bytes as nat) + seq![r.tx_usage] + seq![r.tx_peak_usage] + u16_bytes(r.rx_pending as nat) + u32_bytes(r.rx_bytes as nat) + seq![r.rx_usage] + seq![r.rx_peak_usage], u16_bytes(r.overrun_errs as nat), 18, 20);
    lemma_extend(p, u16_bytes(r.port_id as nat) + u16_bytes(r.tx_pending as nat) + u32_bytes(r.tx_bytes as nat) + seq![r.tx_usage] + seq![r.tx_peak_usage] + u16_bytes(r.rx_pending as nat) + u32_bytes(r.rx_bytes as nat) + seq![r.rx_usage] + seq![r.rx_peak_usage] + u16_bytes(r.overrun_errs as nat), u16_bytes(r.msgs@[0] as nat), 20, 22);
    lemma_extend(p, u16_bytes(r.port_id as nat) + u16_bytes(r.tx_pending as nat) + u32_bytes(r.tx_bytes as nat) + seq![r.tx_usage] + seq![r.tx_peak_usage] + u16_bytes(r.rx_pending as nat) + u32_bytes(r.rx_bytes as nat) + seq![r.rx_usage] + seq![r.rx_peak_usage] + u16_bytes(r.overrun_errs as nat) + u16_bytes(r.msgs@[0] as nat), u16_bytes(r.msgs@[1] as nat), 22, 24);
    lemma_extend(p, u16_bytes(r.port_id as nat) + u16_bytes(r.tx_pending as nat) + u32_bytes(r.tx_bytes as nat) + seq![r.tx_usage] + seq![r.tx_peak_usage] + u16_bytes(r.rx_pending as nat) + u32_bytes(r.rx_bytes as nat) + seq![r.rx_usage] + seq![r.rx_peak_usage] + u16_bytes(r.overrun_errs as nat) + u16_bytes(r.msgs@[0] as nat) + u16_bytes(r.msgs@[1] as nat), u16_bytes(r.msgs@[2] as nat), 24, 26);
    lemma_extend(p, u16_bytes(r.port_id as nat) + u16_bytes(r.tx_pending as nat) + u32_bytes(r.tx_bytes as nat) + seq![r.tx_usage] + seq![r.tx_peak_usage] + u16_bytes(r.rx_pending as nat) + u32_bytes(r.rx_bytes as nat) + seq![r.rx_usage] + seq![r.rx_peak_usage] + u16_bytes(r.overrun_errs as nat) + u16_bytes(r.msgs@[0] as nat) + u16_bytes(r.msgs@[1] as nat) + u16_bytes(r.msgs@[2] as nat), u16_bytes(r.msgs@[3] as nat), 26, 28);
    lemma_extend(p, u16_bytes(r.port_id as nat) + u16_bytes(r.tx_pending as nat) + u32_bytes(r.tx_bytes as nat) + seq![r.tx_usage] + seq![r.tx_peak_usage] + u16_bytes(r.rx_pending as nat) + u32_bytes(r.rx_bytes as nat) + seq![r.rx_usage] + seq![r.rx_peak_usage] + u16_bytes(r.overrun_errs as nat) + u16_bytes(r.msgs@[0] as nat) + u16_bytes(r.msgs@[1] as nat) + u16_bytes(r.msgs@[2] as nat) + u16_bytes(r.msgs@[3] as nat), seq![r.res2@[0]], 28, 29);
    lemma_extend(p, u16_bytes(r.port_id as nat) + u16_bytes(r.tx_pending as nat) + u32_bytes(r.tx_bytes as nat) + seq![r.tx_usage] + seq![r.tx_peak_usage] + u16_bytes(r.rx_pending as nat) + u32_bytes(r.rx_bytes as nat) + seq![r.rx_usage] + seq![r.rx_peak_usage] + u16_bytes(r.overrun_errs as nat) + u16_bytes(r.msgs@[0] as nat) + u16_bytes(r.msgs@[1] as nat) + u16_bytes(r.msgs@[2] as nat) + u16_bytes(r.msgs@[3] as nat) + seq![r.res2@[0]], seq![r.res2@[1]], 29, 30);
    lemma_extend(p, u16_bytes(r.port_id as nat) + u16_bytes(r.tx_pending as nat) + u32_bytes(r.tx_bytes as nat) + seq![r.tx_usage] + seq![r.tx_peak_usage] + u16_bytes(r.rx_pending as nat) + u32_bytes(r.rx_bytes as nat) + seq![r.rx_usage] + seq![r.rx_peak_usage] + u16_bytes(r.overrun_errs as nat) + u16_bytes(r.msgs@[0] as nat) + u16_bytes(r.msgs@[1] as nat) + u16_bytes(r.msgs@[2] as nat) + u16_bytes(r.msgs@[3] as nat) + seq![r.res2@[0]] + seq![r.res2@[1]], seq![r.res2@[2]], 30, 31);
    lemma_extend(p, u16_bytes(r.port_id as nat) + u16_bytes(r.tx_pending as nat) + u32_bytes(r.tx_bytes as nat) + seq![r.tx_usage] + seq![r.tx_peak_usage] + u16_bytes(r.rx_pending as nat) + u32_bytes(r.rx_bytes as nat) + seq![r.rx_usage] + seq![r.rx_peak_usage] + u16_bytes(r.overrun_errs as nat) + u16_bytes(r.msgs@[0] as nat) + u16_bytes(r.msgs@[1] as nat) + u16_bytes(r.msgs@[2] as nat) + u16_bytes(r.msgs@[3] as nat) + seq![r.res2@[0]] + seq![r.res2@[1]] + seq![r.res2@[2]], seq![r.res2@[3]], 31, 32);
    lemma_extend(p, u16_bytes(r.port_id as nat) + u16_bytes(r.tx_pending as nat) + u32_bytes(r.tx_bytes as nat) + seq![r.tx_usage] + seq![r.tx_peak_usage] + u16_bytes(r.rx_pending as nat) + u32_bytes(r.rx_bytes as nat) + seq![r.rx_usage] + seq![r.rx_peak_usage] + u16_bytes(r.overrun_errs as nat) + u16_bytes(r.msgs@[0] as nat) + u16_bytes(r.msgs@[1] as nat) + u16_bytes(r.msgs@[2] as nat) + u16_bytes(r.msgs@[3] as nat) + seq![r.res2@[0]] + seq![r.res2@[1]] + seq![r.res2@[2]] + seq![r.res2@[3]], seq![r.res2@[4]], 32, 33);
    lemma_extend(p, u16_bytes(r.port_id as nat) + u16_bytes(r.tx_pending as nat) + u32_bytes(r.tx_bytes as nat) + seq![r.tx_usage] + seq![r.tx_peak_usage] + u16_bytes(r.rx_pending as nat) + u32_bytes(r.rx_bytes as nat) + seq![r.rx_usage] + seq![r.rx_peak_usage] + u16_bytes(r.overrun_errs as nat) + u16_bytes(r.msgs@[0] as nat) + u16_bytes(r.msgs@[1] as nat) + u16_bytes(r.msgs@[2] as nat) + u16_bytes(r.msgs@[3] as nat) + seq![r.res2@[0]] + seq![r.res2@[1]] + seq![r.res2@[2]] + seq![r.res2@[3]] + seq![r.res2@[4]], seq![r.res2@[5]], 33, 34);
    lemma_extend(p, u16_bytes(r.port_id as nat) + u16_bytes(r.tx_pending as nat) + u32_bytes(r.tx_bytes as nat) + seq![r.tx_usage] + seq![r.tx_peak_usage] + u16_bytes(r.rx_pending as nat) + u32_bytes(r.rx_bytes as nat) + seq![r.rx_usage] + seq![r.rx_peak_usage] + u16_bytes(r.overrun_errs as nat) + u16_bytes(r.msgs@[0] as nat) + u16_bytes(r.msgs@[1] as nat) + u16_bytes(r.msgs@[2] as nat) + u16_bytes(r.msgs@[3] as nat) + seq![r.res2@[0]] + seq![r.res2@[1]] + seq![r.res2@[2]] + seq![r.res2@[3]] + seq![r.res2@[4]] + seq![r.res2@[5]], seq![r.res2@[6]], 34, 35);
    lemma_extend(p, u16_bytes(r.port_id as nat) + u16_bytes(r.tx_pending as nat) + u32_bytes(r.tx_bytes as nat) + seq![r.tx_usage] + seq![r.tx_peak_usage] + u16_bytes(r.rx_pending as nat) + u32_bytes(r.rx_bytes as nat) + seq![r.rx_usage] + seq![r.rx_peak_usage] + u16_bytes(r.overrun_errs as nat) + u16_bytes(r.msgs@[0] as nat) + u16_bytes(r.msgs@[1] as nat) + u16_bytes(r.msgs@[2] as nat) + u16_bytes(r.msgs@[3] as nat) + seq![r.res2@[0]] + seq![r.res2@[1]] + seq![r.res2@[2]] + seq![r.res2@[3]] + seq![r.res2@[4]] + seq![r.res2@[5]] + seq![r.res2@[6]], seq![r.res2@[7]], 35, 36);
    lemma_extend(p, u16_bytes(r.port_id as nat) + u16_bytes(r.tx_pending as nat) + u32_bytes(r.tx_bytes as nat) + seq![r.tx_usage] + seq![r.tx_peak_usage] + u16_bytes(r.rx_pending as nat) + u32_bytes(r.rx_bytes as nat) + seq![r.rx_usage] + seq![r.rx_peak_usage] + u16_bytes(r.overrun_errs as nat) + u16_bytes(r.msgs@[0] as nat) + u16_bytes(r.msgs@[1] as nat) + u16_bytes(r.msgs@[2] as nat) + u16_bytes(r.msgs@[3] as nat) + seq![r.res2@[0]] + seq![r.res2@[1]] + seq![r.res2@[2]] + seq![r.res2@[3]] + seq![r.res2@[4]] + seq![r.res2@[5]] + seq![r.res2@[6]] + seq![r.res2@[7]], u32_bytes(r.skipped as nat), 36, 40);
    assert(p.subrange(0, 40) =~= p);
}

} // verus!

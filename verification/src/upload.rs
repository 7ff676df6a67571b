//! The firmware upload proxy (`platformio-proxy`): the frame in which a
//! client sends a build, and the container command that flashes it.
use vstd::prelude::*;
use crate::text::{owned, concat2, concat3, str_eq};
use crate::mgmt::strs;

verus! {

/// `256^i`.
pub open spec fn weight(i: nat) -> nat
    decreases i,
{
    if i == 0 {
        1
    } else {
        256 * weight((i - 1) as nat)
    }
}

/// The little-endian value of a byte sequence.
pub open spec fn le_value(s: Seq<u8>) -> nat
    decreases s.len(),
{
    if s.len() == 0 {
        0
    } else {
        le_value(s.drop_last()) + s.last() as nat * weight((s.len() - 1) as nat)
    }
}

proof fn lemma_shift_weight(i: u64)
    requires
        i < 8,
    ensures
        (1u64 << (8 * i)) as nat == weight(i as nat),
    decreases i,
{
    if i > 0 {
        lemma_shift_weight((i - 1) as u64);
        let j: u64 = (i - 1) as u64;
        assert((1u64 << (8 * (j + 1))) == (1u64 << (8 * j)) * 256) by (bit_vector)
            requires
                j < 7,
        ;
    } else {
        assert((1u64 << 0u64) == 1) by (bit_vector);
    }
}

proof fn lemma_or_is_add(x: u64, k: u64, i: u64)
    requires
        i < 8,
        k < 256,
        x < (1u64 << (8 * i)),
    ensures
        (x | (k << (8 * i))) == x + k * (1u64 << (8 * i)),
        i < 7 ==> x + k * (1u64 << (8 * i)) < (1u64 << (8 * (i + 1))),
{
    assert((x | (k << (8 * i))) == x + k * (1u64 << (8 * i))) by (bit_vector)
        requires
            i < 8,
            k < 256,
            x < (1u64 << (8 * i)),
    ;
    assert(i < 7 ==> x + k * (1u64 << (8 * i)) < (1u64 << (8 * (i + 1)))) by (bit_vector)
        requires
            i < 8,
            k < 256,
            x < (1u64 << (8 * i)),
    ;
}

proof fn lemma_le_value_bound(s: Seq<u8>)
    ensures
        le_value(s) < weight(s.len()),
    decreases s.len(),
{
    if s.len() > 0 {
        lemma_le_value_bound(s.drop_last());
        let w = weight((s.len() - 1) as nat);
        assert(le_value(s.drop_last()) + s.last() as nat * w < 256 * w) by (nonlinear_arith)
            requires
                le_value(s.drop_last()) < w,
                s.last() < 256,
        ;
    }
}

proof fn lemma_weight_mono(i: nat, j: nat)
    requires
        i <= j,
    ensures
        weight(i) <= weight(j),
    decreases j,
{
    if i < j {
        lemma_weight_mono(i, (j - 1) as nat);
    }
}

/// Reads a little-endian number of at most as many bytes as a `usize` holds.
pub fn u8vec_to_usize(v: &[u8]) -> (x: usize)
    requires
        v@.len() * 8 <= usize::BITS,
    ensures
        x as nat == le_value(v@),
{
    let mut acc: u64 = 0;
    let mut index: usize = 0;
    assert(0u64 < (1u64 << (8 * 0u64))) by (bit_vector);
    while index < v.len()
        invariant
            index <= v@.len() <= 8,
            v@.len() * 8 <= usize::BITS,
            acc as nat == le_value(v@.subrange(0, index as int)),
            index < 8 ==> acc < (1u64 << (8 * index as u64)),
        decreases v@.len() - index,
    {
        let k = v[index] as u64;
        let i = index as u64;
        proof {
            lemma_or_is_add(acc, k, i);
            lemma_shift_weight(i);
            let pre = v@.subrange(0, index + 1);
            assert(pre.drop_last() =~= v@.subrange(0, index as int));
            assert(pre.last() == v@[index as int]);
        }
        acc = acc | (k << (8 * i));
        index = index + 1;
    }
    assert(v@.subrange(0, v@.len() as int) =~= v@);
    proof {
        lemma_le_value_bound(v@);
        if usize::BITS == 32 {
            lemma_weight_mono(v@.len(), 4);
            assert(weight(4) == 0x1_0000_0000) by {
                reveal_with_fuel(weight, 5);
            }
        }
    }
    acc as usize
}

/// The low 32 bits of `x` as four little-endian bytes.
pub open spec fn le4(x: nat) -> Seq<u8> {
    seq![
        (x % 256) as u8,
        (x / 256 % 256) as u8,
        (x / 65536 % 256) as u8,
        (x / 16777216 % 256) as u8,
    ]
}

proof fn lemma_le4_value(y: u64)
    ensures
        le_value(le4(y as nat)) == y as nat % 0x1_0000_0000,
{
    let s = le4(y as nat);
    let s3 = s.drop_last();
    let s2 = s3.drop_last();
    let s1 = s2.drop_last();
    let s0 = s1.drop_last();
    assert(s0 =~= Seq::<u8>::empty());
    assert(s1.len() == 1 && s1.last() == s[0]);
    assert(s2.len() == 2 && s2.last() == s[1]);
    assert(s3.len() == 3 && s3.last() == s[2]);
    assert(s.len() == 4 && s.last() == s[3]);
    assert(le_value(s0) == 0);
    assert(weight(0) == 1);
    assert(weight(1) == 256);
    assert(weight(2) == 65536);
    assert(weight(3) == 16777216);
    assert(le_value(s1) == s[0] as nat);
    assert(le_value(s2) == s[0] as nat + s[1] as nat * 256);
    assert(le_value(s3) == s[0] as nat + s[1] as nat * 256 + s[2] as nat * 65536);
    assert(le_value(s) == s[0] as nat + s[1] as nat * 256 + s[2] as nat * 65536 + s[3] as nat
        * 16777216);
    assert((y % 256) + ((y / 256) % 256) * 256 + ((y / 65536) % 256) * 65536 + ((y / 16777216)
        % 256) * 16777216 == y % 0x1_0000_0000) by (bit_vector);
}

/// The four bytes of a length written little-endian: bits above 32 are
/// dropped.  The conversion cannot fail.
pub fn usize_to_u8vec(x: usize) -> (r: Result<Vec<u8>, String>)
    ensures
        r matches Ok(v) && v@ == le4(x as nat),
{
    let mut v: Vec<u8> = Vec::new();
    let y = x as u64;
    proof {
        assert((y & 0xff) == y % 256) by (bit_vector);
        assert(((y >> 8) & 0xff) == y / 256 % 256) by (bit_vector);
        assert(((y >> 16) & 0xff) == y / 65536 % 256) by (bit_vector);
        assert(((y >> 24) & 0xff) == y / 16777216 % 256) by (bit_vector);
    }
    v.push((x & 0xff) as u8);
    v.push(((x >> 8) & 0xff) as u8);
    v.push(((x >> 16) & 0xff) as u8);
    v.push(((x >> 24) & 0xff) as u8);
    proof {
        assert((x & 0xff) == (y & 0xff)) by (bit_vector)
            requires
                y == x,
        ;
        assert(((x >> 8) & 0xff) == ((y >> 8) & 0xff)) by (bit_vector)
            requires
                y == x,
        ;
        assert(((x >> 16) & 0xff) == ((y >> 16) & 0xff)) by (bit_vector)
            requires
                y == x,
        ;
        assert(((x >> 24) & 0xff) == ((y >> 24) & 0xff)) by (bit_vector)
            requires
                y == x,
        ;
    }
    assert(v@ =~= le4(x as nat));
    Ok(v)
}

/// A length survives writing and reading back, up to 32 bits.
pub proof fn law_length_roundtrip(x: usize)
    ensures
        le_value(le4(x as nat)) == x as nat % 0x1_0000_0000,
{
    lemma_le4_value(x as u64);
}

/// Command byte of an upload.
pub const COMMAND_UPLOAD: u8 = 0;

/// What a client sends: the project file and the built firmware.
#[derive(Debug)]
pub struct Build {
    pub platformio_ini: Vec<u8>,
    pub blob: Vec<u8>,
}

/// Why a frame is ignored.
#[derive(Debug, Clone, Copy, PartialEq, Eq, Structural)]
pub enum FrameError {
    /// Fewer than two bytes.
    TooSmall,
    UnknownVersion(u8),
    UnknownCommand(u8),
}

/// The header of an upload frame: version, command, and the two lengths.
pub open spec fn header_spec(ini_len: nat, exe_len: nat) -> Seq<u8> {
    seq![0u8, COMMAND_UPLOAD] + le4(ini_len) + le4(exe_len)
}

/// Sizes announced by an upload header.
pub open spec fn ini_size(raw: Seq<u8>) -> nat {
    le_value(raw.subrange(2, 6))
}

pub open spec fn exe_size(raw: Seq<u8>) -> nat {
    le_value(raw.subrange(6, 10))
}

/// An upload frame whose header or contents are cut short.
pub open spec fn frame_truncated(raw: Seq<u8>) -> bool {
    raw.len() >= 2 && raw[0] == 0 && raw[1] == COMMAND_UPLOAD && (raw.len() < 10 || 10 + ini_size(
        raw,
    ) + exe_size(raw) > raw.len())
}

/// What a frame holds: the project file and the firmware, or why it is
/// ignored.
pub open spec fn frame_spec(raw: Seq<u8>) -> Result<(Seq<u8>, Seq<u8>), FrameError> {
    if raw.len() < 2 {
        Err(FrameError::TooSmall)
    } else if raw[0] != 0 {
        Err(FrameError::UnknownVersion(raw[0]))
    } else if raw[1] != COMMAND_UPLOAD {
        Err(FrameError::UnknownCommand(raw[1]))
    } else {
        let a = ini_size(raw) as int;
        let b = exe_size(raw) as int;
        Ok((raw.subrange(10, 10 + a), raw.subrange(10 + a, 10 + a + b)))
    }
}

/// Reads an upload frame.  A frame cut short is outside the domain: the
/// server stops on it.
pub fn parse_frame(raw: &[u8]) -> (r: Result<Build, FrameError>)
    requires
        !frame_truncated(raw@),
    ensures
        match frame_spec(raw@) {
            Ok((ini, exe)) => r matches Ok(b) && b.platformio_ini@ == ini && b.blob@ == exe,
            Err(e) => r == Err::<Build, FrameError>(e),
        },
{
    if raw.len() < 2 {
        return Err(FrameError::TooSmall);
    }
    let version = raw[0];
    if version != 0 {
        return Err(FrameError::UnknownVersion(version));
    }
    if raw[1] != COMMAND_UPLOAD {
        return Err(FrameError::UnknownCommand(raw[1]));
    }
    let header_len: usize = 10;
    let ini_len = u8vec_to_usize(vstd::slice::slice_subrange(raw, 2, 6));
    let exe_len = u8vec_to_usize(vstd::slice::slice_subrange(raw, 6, 10));
    let ini_end = header_len + ini_len;
    let exe_end = ini_end + exe_len;
    let platformio_ini = vstd::slice::slice_to_vec(vstd::slice::slice_subrange(raw, header_len, ini_end));
    let blob = vstd::slice::slice_to_vec(vstd::slice::slice_subrange(raw, ini_end, exe_end));
    Ok(Build { platformio_ini, blob })
}

/// The header that a client sends before the project file and the firmware.
pub fn upload_header(ini_len: usize, exe_len: usize) -> (r: Result<Vec<u8>, String>)
    ensures
        r matches Ok(h) && h@ == header_spec(ini_len as nat, exe_len as nat),
{
    let mut header: Vec<u8> = Vec::new();
    header.push(0);
    header.push(COMMAND_UPLOAD);
    let mut a = usize_to_u8vec(ini_len)?;
    let mut b = usize_to_u8vec(exe_len)?;
    header.append(&mut a);
    header.append(&mut b);
    assert(header@ =~= header_spec(ini_len as nat, exe_len as nat));
    Ok(header)
}

/// A frame made of a header and the two contents reads back as those
/// contents, for contents shorter than 2^32 bytes.
pub proof fn law_frame_roundtrip(ini: Seq<u8>, exe: Seq<u8>)
    requires
        ini.len() < 0x1_0000_0000,
        exe.len() < 0x1_0000_0000,
    ensures
        !frame_truncated(header_spec(ini.len(), exe.len()) + ini + exe),
        frame_spec(header_spec(ini.len(), exe.len()) + ini + exe) == Ok::<
            (Seq<u8>, Seq<u8>),
            FrameError,
        >((ini, exe)),
{
    let raw = header_spec(ini.len(), exe.len()) + ini + exe;
    lemma_le4_value(ini.len() as u64);
    lemma_le4_value(exe.len() as u64);
    assert(raw.subrange(2, 6) =~= le4(ini.len()));
    assert(raw.subrange(6, 10) =~= le4(exe.len()));
    let a = ini.len() as int;
    let b = exe.len() as int;
    assert(raw.subrange(10, 10 + a) =~= ini);
    assert(raw.subrange(10 + a, 10 + a + b) =~= exe);
}

/// Container runtime on the host that flashes the firmware.
#[derive(Debug, Clone, Copy, PartialEq, Eq, Structural)]
pub enum Runtime {
    Docker,
    Podman,
}

impl Runtime {
    pub open spec fn spec_name(&self) -> Seq<char> {
        match self {
            Runtime::Docker => "docker"@,
            Runtime::Podman => "podman"@,
        }
    }

    /// The program name of the runtime (its `Display`).
    pub fn name(&self) -> (s: &'static str)
        ensures
            s@ == self.spec_name(),
    {
        match self {
            Runtime::Docker => "docker",
            Runtime::Podman => "podman",
        }
    }

    /// The runtime named `value` (`TryFrom<String>`).
    pub fn from_name(value: &str) -> (r: Result<Runtime, &'static str>)
        ensures
            value@ == "docker"@ ==> r == Ok::<Runtime, &'static str>(Runtime::Docker),
            value@ == "podman"@ ==> r == Ok::<Runtime, &'static str>(Runtime::Podman),
            value@ != "docker"@ && value@ != "podman"@ ==> (r matches Err(m) && m@
                == "runtime must be one of the following: docker, podman"@),
    {
        proof {
            reveal_strlit("docker");
            reveal_strlit("podman");
            assert("docker"@[0] != "podman"@[0]);
        }
        if str_eq(value, "docker") {
            Ok(Runtime::Docker)
        } else if str_eq(value, "podman") {
            Ok(Runtime::Podman)
        } else {
            Err("runtime must be one of the following: docker, podman")
        }
    }
}

/// Arguments of the runtime command that flashes a build: the project file
/// and the firmware are mounted read-only, the device is passed through.
pub open spec fn upload_args_spec(
    ini_path: Seq<char>,
    fw_path: Seq<char>,
    build_path: Seq<char>,
    img: Seq<char>,
    device: Seq<char>,
) -> Seq<Seq<char>> {
    seq![
        "run"@,
        "--rm"@,
        "-it"@,
        "-v"@,
        ini_path + ":/root/platformio.ini:ro"@,
        "-v"@,
        fw_path + ":"@ + build_path + ":ro"@,
        "--device="@ + device + ":"@ + device,
        img,
        "bash"@,
        "-ic"@,
        "cd $HOME && pio run -t nobuild -t upload"@,
    ]
}

pub fn upload_args(ini_path: &str, fw_path: &str, build_path: &str, img: &str, device: &str) -> (v:
    Vec<String>)
    ensures
        strs(v@) == upload_args_spec(ini_path@, fw_path@, build_path@, img@, device@),
{
    let mut v: Vec<String> = Vec::new();
    v.push(owned("run"));
    v.push(owned("--rm"));
    v.push(owned("-it"));
    v.push(owned("-v"));
    v.push(concat2(ini_path, ":/root/platformio.ini:ro"));
    v.push(owned("-v"));
    let mut mount = concat3(fw_path, ":", build_path);
    mount.append(":ro");
    v.push(mount);
    let mut dev = concat3("--device=", device, ":");
    dev.append(device);
    v.push(dev);
    v.push(owned(img));
    v.push(owned("bash"));
    v.push(owned("-ic"));
    v.push(owned("cd $HOME && pio run -t nobuild -t upload"));
    assert(strs(v@) =~= upload_args_spec(ini_path@, fw_path@, build_path@, img@, device@));
    v
}

/// Whether an upload frame is cut short (the server stops on such a frame).
pub fn frame_truncated_at(raw: &[u8]) -> (b: bool)
    ensures
        b == frame_truncated(raw@),
{
    if raw.len() < 2 || raw[0] != 0 || raw[1] != COMMAND_UPLOAD {
        return false;
    }
    if raw.len() < 10 {
        return true;
    }
    let ini_len = u8vec_to_usize(vstd::slice::slice_subrange(raw, 2, 6));
    let exe_len = u8vec_to_usize(vstd::slice::slice_subrange(raw, 6, 10));
    let rest = raw.len() - 10;
    ini_len > rest || exe_len > rest - ini_len
}

} // verus!

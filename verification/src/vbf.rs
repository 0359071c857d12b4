//! The VBF file: its header text, its binary payload, and the verification
//! block table whose SHA-256 is the file's root hash.
use crate::digest::{crc16, crc16_checksum, crc32, crc32_checksum, sha256, sha256_digest};
use crate::encode::{
    be16, be32, decimal, hex_bytes, hex_upper, parse_u32, parse_u32_decimal, push_all,
    push_be16, push_be32, push_decimal, push_hex_bytes, push_hex_upper,
};
use crate::script::{ConfigKey, ScriptsT, ScriptsView};
use vstd::prelude::*;
use vstd::utf8::encode_utf8;

verus! {

/// Whether the file has been set up.
#[derive(Debug, Clone, Copy, PartialEq, Eq)]
pub enum StatusT {
    Init,
    Uninit,
}

/// One block of the image: where it is loaded, how long it is, its SHA-256.
#[allow(non_camel_case_types)]
#[derive(Clone, Copy)]
pub struct blk_info {
    pub start_addr: u32,
    pub length: u32,
    pub hash_value: [u8; 32],
}

/// Mathematical model of a [`blk_info`].
pub struct BlkView {
    pub start_addr: u32,
    pub length: u32,
    pub hash_value: Seq<u8>,
}

impl View for blk_info {
    type V = BlkView;

    open spec fn view(&self) -> BlkView {
        BlkView { start_addr: self.start_addr, length: self.length, hash_value: self.hash_value@ }
    }
}

/// The verification block table and the root hash computed over it.
#[derive(Clone, Copy)]
pub struct VbtInfo {
    pub vbt_len: u32,
    pub vbt_hash: [u8; 32],
    pub vbt_format: u16,
    pub num_blk: u16,
    pub blk: [blk_info; 2],
}

/// Mathematical model of a [`VbtInfo`].
pub struct VbtView {
    pub vbt_len: u32,
    pub vbt_hash: Seq<u8>,
    pub vbt_format: u16,
    pub num_blk: u16,
    pub blk: Seq<BlkView>,
}

impl View for VbtInfo {
    type V = VbtView;

    open spec fn view(&self) -> VbtView {
        VbtView {
            vbt_len: self.vbt_len,
            vbt_hash: self.vbt_hash@,
            vbt_format: self.vbt_format,
            num_blk: self.num_blk,
            blk: self.blk@.map_values(|b: blk_info| b@),
        }
    }
}

/// Mathematical model of a [`VbfFt`].
pub struct VbfView {
    pub status: StatusT,
    pub vbt_info: VbtView,
    pub script: ScriptsView,
}

/// A VBF file being built: its build script and its block table.
pub struct VbfFt {
    status: StatusT,
    vbt_info: VbtInfo,
    script: ScriptsT,
}

impl View for VbfFt {
    type V = VbfView;

    closed spec fn view(&self) -> VbfView {
        VbfView { status: self.status, vbt_info: self.vbt_info@, script: self.script@ }
    }
}

/// Load address of the image block.
pub open spec fn image_start() -> u32 {
    0x0100_0000
}

/// Length in bytes of the verification block table.
pub open spec fn vbt_length() -> u32 {
    44
}

/// The block table right after [`VbfFt::new`] read an image of `image` bytes.
pub open spec fn initial_vbt(image: Seq<u8>) -> VbtView {
    VbtView {
        vbt_len: vbt_length(),
        vbt_hash: Seq::new(32, |i: int| 0u8),
        vbt_format: 0,
        num_blk: 1,
        blk: seq![
            BlkView {
                start_addr: image_start(),
                length: image.len() as u32,
                hash_value: sha256_digest(image),
            },
            BlkView { start_addr: 0, length: 0, hash_value: Seq::new(32, |i: int| 0u8) },
        ],
    }
}

/// A file just set up by [`VbfFt::new`] for build script `sc` and image `image`.
pub open spec fn fresh_file(sc: ScriptsView, image: Seq<u8>) -> VbfView {
    VbfView { status: StatusT::Init, vbt_info: initial_vbt(image), script: sc }
}

/// The verification block table as stored in the file: format, number of
/// blocks (counted without the table itself), then start, length and hash of
/// the image block.
pub open spec fn vbt_table(info: VbtView) -> Seq<u8> {
    be16(info.vbt_format) + be16((info.num_blk - 1) as u16) + be32(info.blk[0].start_addr)
        + be32(info.blk[0].length) + info.blk[0].hash_value
}

/// What the root hash is taken over: the table's address, its length, the table.
pub open spec fn root_hash_input(vbt_addr: u32, info: VbtView) -> Seq<u8> {
    be32(vbt_addr) + be32(info.vbt_len) + vbt_table(info)
}

/// Why a file could not be written.
#[derive(Debug, Clone, Copy, PartialEq, Eq)]
pub enum DumpError {
    /// The block count would pass `u16::MAX`.
    BlockCountOverflow,
    /// The table's start address is not a decimal `u32`.
    VbtAddress,
    /// The byte count of the header would pass `u32::MAX`.
    ByteCountOverflow,
}

/// UTF-8 bytes of a text.
pub open spec fn utf8(s: Seq<char>) -> Seq<u8> {
    encode_utf8(s)
}

/// Text up to the software part number.
pub const HEAD_OPEN: &'static str = ";\r\n\r\nheader {\r\n    //**********************************************************\r\n    //*\r\n    //*                      Freetech.co\r\n    //*\r\n    //*     This file is generated by VBF CONVERT ver. 5.10.0\r\n    //*\r\n    //*                        DO NOT EDIT !\r\n    //*\r\n    //**********************************************************\r\n    \r\n    // Volvo software part number\r\n       sw_part_number = \"";

/// Text before the format version.
pub const HEAD_VERSION: &'static str = "vbf_version = ";

/// Text between the software part number and the software version.
pub const AFTER_PART_NUM: &'static str = "\";\r\n\r\n    // Software Version: \r\n       sw_version = \"";

/// Text between the software version and the software part type.
pub const AFTER_SW_VERSION: &'static str = "\";\r\n\r\n    // Volvo software part type: Executable\r\n       sw_part_type = ";

/// Text between the software part type and the data format identifier.
pub const AFTER_SW_TYPE: &'static str = ";\r\n\r\n    // Data format identifier: 0x00 = Uncompressed, 0x10 = Compressed\r\n       data_format_identifier = ";

/// Data format identifier of a compressed image.
pub const FORMAT_COMPRESSED: &'static str = "0x10";

/// Data format identifier of an uncompressed image.
pub const FORMAT_PLAIN: &'static str = "0x00";

/// Text between the data format identifier and the ECU address.
pub const AFTER_FORMAT: &'static str = ";\r\n\r\n    // ECU Address: \r\n       ecu_address = 0x";

/// Text after the ECU address.
pub const AFTER_ECU: &'static str = ";\r\n\r\n";

/// Text before the table's start address.
pub const VBT_START: &'static str = "    // Start address of the hash table\r\n       verification_block_start = 0x";

/// Text between the table's start address and its length.
pub const VBT_LENGTH: &'static str = ";\r\n\r\n    // Length of the hash table\r\n       verification_block_length = 0x";

/// Text between the table's length and the root hash.
pub const VBT_ROOT: &'static str = ";\r\n\r\n    // Root hash value\r\n       verification_block_root_hash = 0x";

/// Text after the root hash.
pub const VBT_CLOSE: &'static str = ";\r\n\r\n";

/// Text before the block count.
pub const BLOCKS: &'static str = "    // Blocks sorted\r\n    // Blocks grouped\r\n    // Blocks:   ";

/// Text between the block count and the byte count.
pub const BYTES: &'static str = ";\r\n    // Bytes:    ";

/// Text between the byte count and the file checksum.
pub const CHECKSUM: &'static str = ";\r\n\r\n    file_checksum = 0x";

/// Text that closes the header.
pub const HEAD_CLOSE: &'static str = ";\r\n}";

/// Header lines taken from the build script, up to the ECU address.
pub open spec fn script_lines(sc: ScriptsView) -> Seq<u8> {
    utf8(HEAD_VERSION@) + utf8(sc.text(ConfigKey::VbfVersion)) + utf8(HEAD_OPEN@) + utf8(
        sc.text(ConfigKey::SwPartNum),
    ) + utf8(AFTER_PART_NUM@) + utf8(sc.text(ConfigKey::SwVersion)) + utf8(AFTER_SW_VERSION@)
        + utf8(sc.text(ConfigKey::SwType)) + utf8(AFTER_SW_TYPE@) + utf8(
        if sc.flag(ConfigKey::Compressed) {
            FORMAT_COMPRESSED@
        } else {
            FORMAT_PLAIN@
        },
    ) + utf8(AFTER_FORMAT@) + utf8(sc.text(ConfigKey::EcuAddr)) + utf8(AFTER_ECU@)
}

/// Header lines that describe the verification block table.
pub open spec fn vbt_lines(vbt_addr: u32, info: VbtView) -> Seq<u8> {
    utf8(VBT_START@) + hex_upper(vbt_addr as nat, 8) + utf8(VBT_LENGTH@) + hex_upper(
        info.vbt_len as nat,
        8,
    ) + utf8(VBT_ROOT@) + hex_bytes(info.vbt_hash) + utf8(VBT_CLOSE@)
}

/// Header lines with the block and byte counts and the file checksum.
pub open spec fn count_lines(vbt: bool, length: u32, file_crc: u32) -> Seq<u8> {
    let n: nat = if vbt { 1 } else { 0 };
    utf8(BLOCKS@) + decimal(1 + n) + utf8(BYTES@) + decimal((length + 44 * n) as nat) + utf8(CHECKSUM@)
        + hex_upper(file_crc as nat, 8) + utf8(HEAD_CLOSE@)
}

/// The whole header text.
#[verifier::opaque]
pub open spec fn header_text(sc: ScriptsView, info: VbtView, vbt_addr: u32, file_crc: u32) -> Seq<u8> {
    let vbt = sc.flag(ConfigKey::CreateVerificationBlock);
    script_lines(sc) + (if vbt {
        vbt_lines(vbt_addr, info)
    } else {
        Seq::empty()
    }) + count_lines(vbt, info.blk[0].length, file_crc)
}

/// The binary part: the image block (start, length, bytes, CRC-16), then,
/// when there is one, the table block (address, length, table, CRC-16).
pub open spec fn payload(info: VbtView, vbt: bool, vbt_addr: u32, image: Seq<u8>) -> Seq<u8> {
    be32(info.blk[0].start_addr) + be32(info.blk[0].length) + image + be16(crc16_checksum(image))
        + if vbt {
        be32(vbt_addr) + be32(info.vbt_len) + vbt_table(info) + be16(crc16_checksum(vbt_table(info)))
    } else {
        Seq::empty()
    }
}

/// The bytes of the file: header, then payload.
#[verifier::opaque]
pub open spec fn vbf_bytes(sc: ScriptsView, info: VbtView, vbt_addr: u32, image: Seq<u8>) -> Seq<u8> {
    header_text(sc, info, vbt_addr, crc32_checksum(image)) + payload(
        info,
        sc.flag(ConfigKey::CreateVerificationBlock),
        vbt_addr,
        image,
    )
}

/// The table after one more block is counted and the root hash is stored.
pub open spec fn counted_and_hashed(info: VbtView, vbt_addr: u32) -> VbtView {
    let counted = VbtView {
        vbt_len: info.vbt_len,
        vbt_hash: info.vbt_hash,
        vbt_format: info.vbt_format,
        num_blk: (info.num_blk + 1) as u16,
        blk: info.blk,
    };
    VbtView {
        vbt_len: counted.vbt_len,
        vbt_hash: sha256_digest(root_hash_input(vbt_addr, counted)),
        vbt_format: counted.vbt_format,
        num_blk: counted.num_blk,
        blk: counted.blk,
    }
}

/// The table's start address as written in the build script.
pub open spec fn vbt_address(sc: ScriptsView) -> Option<u32> {
    parse_u32(utf8(sc.text(ConfigKey::VerificationBlockStartAddr)))
}

/// What [`VbfFt::dump`] does to a file in state `v` with image `image`: the
/// new state and the bytes of the file, or why it refuses.
pub open spec fn dump_outcome(v: VbfView, image: Seq<u8>) -> Result<(VbfView, Seq<u8>), DumpError> {
    let sc = v.script;
    let info = v.vbt_info;
    let vbt = sc.flag(ConfigKey::CreateVerificationBlock);
    if vbt && info.num_blk == u16::MAX {
        Err(DumpError::BlockCountOverflow)
    } else if vbt && vbt_address(sc) is None {
        Err(DumpError::VbtAddress)
    } else if info.blk[0].length + (if vbt { 44int } else { 0int }) > u32::MAX {
        Err(DumpError::ByteCountOverflow)
    } else {
        let a = if vbt { vbt_address(sc)->0 } else { 0u32 };
        let v2 = VbfView {
            status: v.status,
            vbt_info: if vbt { counted_and_hashed(info, a) } else { info },
            script: sc,
        };
        Ok((v2, vbf_bytes(sc, v2.vbt_info, a, image)))
    }
}

/// Appends the UTF-8 bytes of `s`.
pub fn push_str(out: &mut Vec<u8>, s: &str)
    ensures
        final(out)@ == old(out)@ + utf8(s@),
{
    push_all(out, s.as_bytes());
}

/// The verification block table of `info` as stored in the file.
pub fn vbt_table_bytes(info: &VbtInfo) -> (r: Vec<u8>)
    requires
        info.num_blk >= 1,
    ensures
        r@ == vbt_table(info@),
{
    let mut out: Vec<u8> = Vec::new();
    push_be16(&mut out, info.vbt_format);
    push_be16(&mut out, info.num_blk - 1);
    let b = info.blk[0];
    push_be32(&mut out, b.start_addr);
    push_be32(&mut out, b.length);
    push_all(&mut out, &b.hash_value);
    assert(info@.blk[0] == b@);
    assert(out@ =~= vbt_table(info@));
    out
}

/// The header lines taken from the build script.
fn script_lines_bytes(script: &ScriptsT) -> (r: Vec<u8>)
    ensures
        r@ == script_lines(script@),
{
    let mut v: Vec<u8> = Vec::new();
    let out = &mut v;
    push_str(out, HEAD_VERSION);
    assert(out@ =~= utf8(HEAD_VERSION@));
    push_str(out, script.literal_of(ConfigKey::VbfVersion).as_str());
    push_str(out, HEAD_OPEN);
    push_str(out, script.literal_of(ConfigKey::SwPartNum).as_str());
    push_str(out, AFTER_PART_NUM);
    push_str(out, script.literal_of(ConfigKey::SwVersion).as_str());
    push_str(out, AFTER_SW_VERSION);
    push_str(out, script.literal_of(ConfigKey::SwType).as_str());
    push_str(out, AFTER_SW_TYPE);
    if script.toggle_of(ConfigKey::Compressed) {
        push_str(out, FORMAT_COMPRESSED);
    } else {
        push_str(out, FORMAT_PLAIN);
    }
    push_str(out, AFTER_FORMAT);
    push_str(out, script.literal_of(ConfigKey::EcuAddr).as_str());
    push_str(out, AFTER_ECU);
    v
}

/// The header lines that describe the verification block table.
fn vbt_lines_bytes(vbt_addr: u32, info: &VbtInfo) -> (r: Vec<u8>)
    ensures
        r@ == vbt_lines(vbt_addr, info@),
{
    let mut v: Vec<u8> = Vec::new();
    let out = &mut v;
    push_str(out, VBT_START);
    assert(out@ =~= utf8(VBT_START@));
    push_hex_upper(out, vbt_addr, 8);
    push_str(out, VBT_LENGTH);
    push_hex_upper(out, info.vbt_len, 8);
    push_str(out, VBT_ROOT);
    push_hex_bytes(out, &info.vbt_hash);
    push_str(out, VBT_CLOSE);
    v
}

/// The header lines with the counts and the file checksum.
fn count_lines_bytes(vbt: bool, length: u32, file_crc: u32) -> (r: Vec<u8>)
    requires
        length + (if vbt { 44int } else { 0int }) <= u32::MAX,
    ensures
        r@ == count_lines(vbt, length, file_crc),
{
    let mut v: Vec<u8> = Vec::new();
    let out = &mut v;
    let n: u32 = if vbt { 1 } else { 0 };
    push_str(out, BLOCKS);
    assert(out@ =~= utf8(BLOCKS@));
    push_decimal(out, 1 + n);
    push_str(out, BYTES);
    push_decimal(out, length + 44 * n);
    push_str(out, CHECKSUM);
    push_hex_upper(out, file_crc, 8);
    push_str(out, HEAD_CLOSE);
    v
}

/// Appends the binary part of the file.
fn push_payload(out: &mut Vec<u8>, info: &VbtInfo, vbt: bool, vbt_addr: u32, image: &[u8])
    requires
        vbt ==> info.num_blk >= 1,
    ensures
        final(out)@ == old(out)@ + payload(info@, vbt, vbt_addr, image@),
{
    let ghost start = out@;
    let b = info.blk[0];
    assert(info@.blk[0] == b@);
    push_be32(out, b.start_addr);
    push_be32(out, b.length);
    push_all(out, image);
    push_be16(out, crc16(image));
    if vbt {
        push_be32(out, vbt_addr);
        push_be32(out, info.vbt_len);
        let table = vbt_table_bytes(info);
        push_all(out, table.as_slice());
        push_be16(out, crc16(table.as_slice()));
    }
    assert(out@ =~= start + payload(info@, vbt, vbt_addr, image@));
}

/// Counts the table as one more block and stores the root hash.
fn count_and_hash(info: &mut VbtInfo, vbt_addr: u32)
    requires
        old(info).num_blk < u16::MAX,
    ensures
        final(info)@ == counted_and_hashed(old(info)@, vbt_addr),
{
    info.num_blk = info.num_blk + 1;
    let mut input: Vec<u8> = Vec::new();
    push_be32(&mut input, vbt_addr);
    push_be32(&mut input, info.vbt_len);
    let table = vbt_table_bytes(info);
    push_all(&mut input, table.as_slice());
    info.vbt_hash = sha256(input.as_slice());
    assert(final(info)@.blk =~= counted_and_hashed(old(info)@, vbt_addr).blk);
}

/// The bytes of a file with build script `script`, table `info` and image
/// `image`.
fn file_bytes(info: &VbtInfo, script: &ScriptsT, vbt_addr: u32, image: &[u8]) -> (r: Vec<u8>)
    requires
        script@.flag(ConfigKey::CreateVerificationBlock) ==> info.num_blk >= 1,
        info@.blk[0].length + (if script@.flag(ConfigKey::CreateVerificationBlock) { 44int } else { 0int }) <= u32::MAX,
    ensures
        r@ == vbf_bytes(script@, info@, vbt_addr, image@),
{
    let vbt = script.toggle_of(ConfigKey::CreateVerificationBlock);
    let mut out = script_lines_bytes(script);
    if vbt {
        let mut lines = vbt_lines_bytes(vbt_addr, info);
        out.append(&mut lines);
    }
    let length = info.blk[0].length;
    assert(info@.blk[0].length == length);
    let mut lines = count_lines_bytes(vbt, length, crc32(image));
    out.append(&mut lines);
    push_payload(&mut out, info, vbt, vbt_addr, image);
    reveal(vbf_bytes);
    reveal(header_text);
    assert(out@ =~= vbf_bytes(script@, info@, vbt_addr, image@));
    out
}

impl VbfFt {
    /// Sets up a file for the build script `script` and the image `image`:
    /// one block at 0x01000000 whose length is the image's length taken
    /// modulo 2^32 and whose hash is the image's SHA-256.
    pub fn new(script: ScriptsT, image: &[u8]) -> (r: VbfFt)
        ensures
            r@ == fresh_file(script@, image@),
    {
        let hash = sha256(image);
        let first = blk_info { start_addr: 0x0100_0000, length: image.len() as u32, hash_value: hash };
        let second = blk_info { start_addr: 0, length: 0, hash_value: [0u8; 32] };
        let r = VbfFt {
            status: StatusT::Init,
            vbt_info: VbtInfo {
                vbt_len: 44,
                vbt_hash: [0u8; 32],
                vbt_format: 0,
                num_blk: 1,
                blk: [first, second],
            },
            script,
        };
        assert(r@.vbt_info.vbt_hash =~= initial_vbt(image@).vbt_hash);
        assert(r@.vbt_info.blk[1].hash_value =~= initial_vbt(image@).blk[1].hash_value);
        assert(r@.vbt_info.blk =~= initial_vbt(image@).blk);
        r
    }

    /// Writes the file: header text, then payload. When the build script asks
    /// for a verification block table, the table is counted as one more
    /// block and its root hash is stored before the header is written. On a
    /// refusal nothing changes.
    pub fn dump(&mut self, image: &[u8]) -> (r: Result<Vec<u8>, DumpError>)
        ensures
            match r {
                Ok(bytes) => dump_outcome(old(self)@, image@) == Ok::<(VbfView, Seq<u8>), DumpError>((final(self)@, bytes@)),
                Err(e) => dump_outcome(old(self)@, image@) == Err::<(VbfView, Seq<u8>), DumpError>(e)
                    && final(self)@ == old(self)@,
            },
    {
        let vbt_enable = self.script.toggle_of(ConfigKey::CreateVerificationBlock);
        let mut vbt_addr: u32 = 0;
        if vbt_enable {
            if self.vbt_info.num_blk == u16::MAX {
                return Err(DumpError::BlockCountOverflow);
            }
            let text = self.script.literal_of(ConfigKey::VerificationBlockStartAddr);
            match parse_u32_decimal(text.as_str()) {
                Some(a) => {
                    vbt_addr = a;
                },
                None => {
                    return Err(DumpError::VbtAddress);
                },
            }
        }
        let extra: u32 = if vbt_enable { 44 } else { 0 };
        let length = self.vbt_info.blk[0].length;
        assert(self@.vbt_info.blk[0].length == length);
        if length > u32::MAX - extra {
            return Err(DumpError::ByteCountOverflow);
        }
        if vbt_enable {
            count_and_hash(&mut self.vbt_info, vbt_addr);
        }
        let out = file_bytes(&self.vbt_info, &self.script, vbt_addr, image);
        Ok(out)
    }

    /// The build script of this file.
    pub fn script(&self) -> (r: &ScriptsT)
        ensures
            r@ == self@.script,
    {
        &self.script
    }
}

} // verus!

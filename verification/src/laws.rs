//! Properties that hold across the functions of the library.
use crate::digest::{crc16_checksum, crc32_checksum, sha256_digest};
use crate::encode::{
    all_digits, be16, be32, decimal, digits_value, hex_bytes, hex_upper, is_digit, parse_u32,
    unsigned_digits,
};
use crate::script::{ConfigKey, ScriptsView};
use crate::vbf::{
    count_lines, counted_and_hashed, dump_outcome, fresh_file, header_text, image_start, payload,
    root_hash_input, script_lines, utf8, vbf_bytes, vbt_address, vbt_lines, vbt_table, VbfView,
    VbtView, AFTER_ECU, AFTER_FORMAT, AFTER_PART_NUM, AFTER_SW_TYPE, AFTER_SW_VERSION, BLOCKS, BYTES,
    CHECKSUM, FORMAT_COMPRESSED, FORMAT_PLAIN, HEAD_CLOSE, HEAD_OPEN, HEAD_VERSION, VBT_CLOSE,
    VBT_LENGTH, VBT_ROOT, VBT_START,
};
use vstd::prelude::*;

verus! {

proof fn lemma_decimal_digits(n: nat)
    ensures
        decimal(n).len() > 0,
        all_digits(decimal(n)),
        digits_value(decimal(n)) == n,
    decreases n,
{
    if n >= 10 {
        lemma_decimal_digits(n / 10);
        let d = decimal(n);
        assert(d.drop_last() =~= decimal(n / 10));
        assert(d.last() == (48 + n % 10) as u8);
        assert(digits_value(d) == digits_value(decimal(n / 10)) * 10 + n % 10);
        assert((n / 10) * 10 + n % 10 == n);
        assert forall|i: int| 0 <= i < d.len() implies is_digit(#[trigger] d[i]) by {
            if i < d.len() - 1 {
                assert(d[i] == decimal(n / 10)[i]);
            }
        }
    } else {
        let d = decimal(n);
        assert(d.drop_last() =~= Seq::<u8>::empty());
        assert(d.last() == (48 + n) as u8);
        assert(digits_value(d) == digits_value(d.drop_last()) * 10 + n);
    }
}

/// Decimal text reads back: the decimal text of a `u32`, as the header
/// prints counts, is read by `str::parse::<u32>` as the same number.
pub proof fn law_decimal_reads_back(n: u32)
    ensures
        parse_u32(decimal(n as nat)) == Some(n),
{
    lemma_decimal_digits(n as nat);
    let d = decimal(n as nat);
    assert(is_digit(d[0]));
    assert(unsigned_digits(d) == d);
}

proof fn lemma_vbf_bytes_split(sc: ScriptsView, info: VbtView, a: u32, image: Seq<u8>)
    ensures
        vbf_bytes(sc, info, a, image) == header_text(sc, info, a, crc32_checksum(image)) + payload(
            info,
            sc.flag(ConfigKey::CreateVerificationBlock),
            a,
            image,
        ),
{
    reveal(vbf_bytes);
}

proof fn lemma_suffix_subrange(h: Seq<u8>, p: Seq<u8>, i: int, j: int)
    requires
        0 <= i <= j <= p.len(),
    ensures
        (h + p).subrange(h.len() + i, h.len() + j) == p.subrange(i, j),
{
    assert((h + p).subrange(h.len() + i, h.len() + j) =~= p.subrange(i, j));
}

proof fn lemma_payload_layout(info: VbtView, vbt: bool, a: u32, image: Seq<u8>)
    requires
        info.blk.len() == 2,
        info.blk[0].hash_value.len() == 32,
    ensures
        ({
            let p = payload(info, vbt, a, image);
            let m = p.len() as int;
            &&& m == 10 + image.len() + (if vbt { 54int } else { 0int })
            &&& p.subrange(0, 8 + image.len() as int) == be32(info.blk[0].start_addr) + be32(
                info.blk[0].length,
            ) + image
            &&& vbt ==> {
                &&& p.subrange(m - 54, m - 2) == root_hash_input(a, info)
                &&& p.subrange(m - 46, m - 2) == vbt_table(info)
                &&& p.subrange(m - 2, m) == be16(crc16_checksum(vbt_table(info)))
                &&& p.subrange(m - 34, m - 2) == info.blk[0].hash_value
            }
        }),
{
    let p = payload(info, vbt, a, image);
    let m = p.len() as int;
    let front = be32(info.blk[0].start_addr) + be32(info.blk[0].length) + image;
    assert(p.subrange(0, 8 + image.len() as int) =~= front);
    if vbt {
        let t = vbt_table(info);
        assert(t.len() == 44);
        assert(p.subrange(m - 54, m - 2) =~= root_hash_input(a, info));
        assert(p.subrange(m - 46, m - 2) =~= t);
        assert(p.subrange(m - 2, m) =~= be16(crc16_checksum(t)));
        assert(t.subrange(12, 44) =~= info.blk[0].hash_value);
        assert(p.subrange(m - 34, m - 2) =~= t.subrange(12, 44));
    }
}

/// The root hash covers the table as written: whenever a file with a
/// verification block table is written, the stored root hash is the SHA-256
/// of the last 54 bytes of the file but the final two (the table's address,
/// length and contents), and those final two bytes are the big-endian
/// CRC-16 of the table's contents (the 44 bytes before them).
pub proof fn law_root_hash_covers_written_table(v: VbfView, image: Seq<u8>)
    requires
        v.vbt_info.blk.len() == 2,
        v.vbt_info.blk[0].hash_value.len() == 32,
        v.script.flag(ConfigKey::CreateVerificationBlock),
        dump_outcome(v, image) is Ok,
    ensures
        ({
            let (v2, bytes) = dump_outcome(v, image)->Ok_0;
            let n = bytes.len() as int;
            &&& n >= 54
            &&& v2.vbt_info.vbt_hash == sha256_digest(bytes.subrange(n - 54, n - 2))
            &&& bytes.subrange(n - 2, n) == be16(crc16_checksum(bytes.subrange(n - 46, n - 2)))
        }),
{
    let (v2, bytes) = dump_outcome(v, image)->Ok_0;
    let a = vbt_address(v.script)->Some_0;
    let info = v2.vbt_info;
    lemma_vbf_bytes_split(v.script, info, a, image);
    lemma_payload_layout(info, true, a, image);
    let h = header_text(v.script, info, a, crc32_checksum(image));
    let p = payload(info, true, a, image);
    let m = p.len() as int;
    lemma_suffix_subrange(h, p, m - 54, m - 2);
    lemma_suffix_subrange(h, p, m - 46, m - 2);
    lemma_suffix_subrange(h, p, m - 2, m);
}

/// A freshly set-up file is written as documented: writing it is refused
/// only when a verification block table is asked for and its start address
/// is not a decimal `u32`; once written it counts one block, or two with the
/// table (the count the header prints); its image block is the load address,
/// the image's length and the image itself; and with a table, the table's
/// hash field (the 32 bytes before the final check word) is the image's
/// SHA-256. Images whose length with the table's 44 bytes passes `u32::MAX`
/// are left out: their length field wraps. The digest is taken to be 32
/// bytes long, as the digest a file holds always is.
pub proof fn law_fresh_file_layout(sc: ScriptsView, image: Seq<u8>)
    requires
        sha256_digest(image).len() == 32,
        image.len() + (if sc.flag(ConfigKey::CreateVerificationBlock) { 44int } else { 0int })
            <= u32::MAX,
    ensures
        ({
            let vbt = sc.flag(ConfigKey::CreateVerificationBlock);
            let outcome = dump_outcome(fresh_file(sc, image), image);
            &&& outcome is Ok <==> (vbt ==> vbt_address(sc) is Some)
            &&& outcome matches Ok((v2, bytes)) ==> {
                let n = bytes.len() as int;
                let p = 10 + image.len() + (if vbt { 54int } else { 0int });
                &&& n >= p
                &&& v2.vbt_info.num_blk == (if vbt { 2int } else { 1int })
                &&& v2.vbt_info.blk[0].length == image.len()
                &&& bytes.subrange(n - p, n - p + 8 + image.len() as int) == be32(image_start()) + be32(
                    image.len() as u32,
                ) + image
                &&& vbt ==> bytes.subrange(n - 34, n - 2) == sha256_digest(image)
            }
        }),
{
    let vbt = sc.flag(ConfigKey::CreateVerificationBlock);
    let v = fresh_file(sc, image);
    let outcome = dump_outcome(v, image);
    if let Ok((v2, bytes)) = outcome {
        let a = if vbt { vbt_address(sc)->Some_0 } else { 0u32 };
        let info = v2.vbt_info;
        assert(info.blk == v.vbt_info.blk);
        lemma_vbf_bytes_split(sc, info, a, image);
        lemma_payload_layout(info, vbt, a, image);
        let h = header_text(sc, info, a, crc32_checksum(image));
        let p = payload(info, vbt, a, image);
        let m = p.len() as int;
        lemma_suffix_subrange(h, p, 0, 8 + image.len() as int);
        if vbt {
            lemma_suffix_subrange(h, p, m - 34, m - 2);
        }
    }
}

/// The header text a successful `dump` writes for state `v`.
#[verifier::opaque]
spec fn header_of(v: VbfView, image: Seq<u8>) -> Seq<u8> {
    let sc = v.script;
    let vbt = sc.flag(ConfigKey::CreateVerificationBlock);
    let a = if vbt { vbt_address(sc)->Some_0 } else { 0u32 };
    let info2 = if vbt { counted_and_hashed(v.vbt_info, a) } else { v.vbt_info };
    script_lines(sc) + (if vbt { vbt_lines(a, info2) } else { Seq::empty() }) + count_lines(
        vbt,
        v.vbt_info.blk[0].length,
        crc32_checksum(image),
    )
}

/// Which pieces the bytes written by a successful `dump` are made of.
proof fn lemma_dump_parts(v: VbfView, image: Seq<u8>)
    requires
        dump_outcome(v, image) is Ok,
    ensures
        ({
            let (v2, bytes) = dump_outcome(v, image)->Ok_0;
            let sc = v.script;
            let vbt = sc.flag(ConfigKey::CreateVerificationBlock);
            let a = if vbt { vbt_address(sc)->Some_0 } else { 0u32 };
            &&& v2.script == sc
            &&& v2.vbt_info == (if vbt { counted_and_hashed(v.vbt_info, a) } else { v.vbt_info })
            &&& vbt ==> vbt_address(sc) is Some && v.vbt_info.num_blk < u16::MAX
            &&& v.vbt_info.blk[0].length + (if vbt { 44int } else { 0int }) <= u32::MAX
            &&& bytes == header_of(v, image) + payload(v2.vbt_info, vbt, a, image)
        }),
{
    reveal(vbf_bytes);
    reveal(header_text);
    reveal(header_of);
}

/// The image block closes with the image's checksum: in every written file
/// the image block (the last part of the file but for the table block, when
/// there is one) is the block's start address and length, the whole image,
/// and then the big-endian CRC-16 of the whole image, whatever its length.
pub proof fn law_image_block_checksum(v: VbfView, image: Seq<u8>)
    requires
        v.vbt_info.blk.len() == 2,
        v.vbt_info.blk[0].hash_value.len() == 32,
        dump_outcome(v, image) is Ok,
    ensures
        ({
            let (v2, bytes) = dump_outcome(v, image)->Ok_0;
            let vbt = v.script.flag(ConfigKey::CreateVerificationBlock);
            let n = bytes.len() as int;
            let m = image.len() as int;
            let q = 10 + m + (if vbt { 54int } else { 0int });
            &&& n >= q
            &&& bytes.subrange(n - q, n - q + 4) == be32(v.vbt_info.blk[0].start_addr)
            &&& bytes.subrange(n - q + 4, n - q + 8) == be32(v.vbt_info.blk[0].length)
            &&& bytes.subrange(n - q + 8, n - q + 8 + m) == image
            &&& bytes.subrange(n - q + 8 + m, n - q + 10 + m) == be16(crc16_checksum(image))
        }),
{
    lemma_dump_parts(v, image);
    let (v2, bytes) = dump_outcome(v, image)->Ok_0;
    let sc = v.script;
    let vbt = sc.flag(ConfigKey::CreateVerificationBlock);
    let a = if vbt { vbt_address(sc)->Some_0 } else { 0u32 };
    let info = v2.vbt_info;
    assert(info.blk == v.vbt_info.blk);
    let h = header_of(v, image);
    let p = payload(info, vbt, a, image);
    let m = image.len() as int;
    lemma_image_part(info, vbt, a, image);
    lemma_suffix_subrange(h, p, 0, 4);
    lemma_suffix_subrange(h, p, 4, 8);
    lemma_suffix_subrange(h, p, 8, 8 + m);
    lemma_suffix_subrange(h, p, 8 + m, 10 + m);
}

proof fn lemma_image_part(info: VbtView, vbt: bool, a: u32, image: Seq<u8>)
    requires
        info.blk.len() == 2,
        info.blk[0].hash_value.len() == 32,
    ensures
        ({
            let p = payload(info, vbt, a, image);
            let m = image.len() as int;
            &&& p.len() == 10 + m + (if vbt { 54int } else { 0int })
            &&& p.subrange(0, 4) == be32(info.blk[0].start_addr)
            &&& p.subrange(4, 8) == be32(info.blk[0].length)
            &&& p.subrange(8, 8 + m) == image
            &&& p.subrange(8 + m, 10 + m) == be16(crc16_checksum(image))
        }),
{
    let p = payload(info, vbt, a, image);
    let m = image.len() as int;
    if vbt {
        assert(vbt_table(info).len() == 44);
    }
    assert(p.subrange(0, 4) =~= be32(info.blk[0].start_addr));
    assert(p.subrange(4, 8) =~= be32(info.blk[0].length));
    assert(p.subrange(8, 8 + m) =~= image);
    assert(p.subrange(8 + m, 10 + m) =~= be16(crc16_checksum(image)));
}

/// The table block is written as configured: with a verification block
/// table, the last 54 bytes of the file are the table's configured start
/// address, its length, the table (format, the block count before the dump,
/// the image block's start, length and hash) and the CRC-16 of the table;
/// the dump counts one more block and stores as root hash the SHA-256 of the
/// address, length and table as written.
pub proof fn law_table_block(v: VbfView, image: Seq<u8>)
    requires
        v.vbt_info.blk.len() == 2,
        v.vbt_info.blk[0].hash_value.len() == 32,
        v.script.flag(ConfigKey::CreateVerificationBlock),
        dump_outcome(v, image) is Ok,
    ensures
        ({
            let (v2, bytes) = dump_outcome(v, image)->Ok_0;
            let info = v.vbt_info;
            let n = bytes.len() as int;
            &&& n >= 54
            &&& vbt_address(v.script) is Some
            &&& bytes.subrange(n - 54, n - 50) == be32(vbt_address(v.script)->Some_0)
            &&& bytes.subrange(n - 50, n - 46) == be32(info.vbt_len)
            &&& bytes.subrange(n - 46, n - 44) == be16(info.vbt_format)
            &&& bytes.subrange(n - 44, n - 42) == be16(info.num_blk)
            &&& bytes.subrange(n - 42, n - 38) == be32(info.blk[0].start_addr)
            &&& bytes.subrange(n - 38, n - 34) == be32(info.blk[0].length)
            &&& bytes.subrange(n - 34, n - 2) == info.blk[0].hash_value
            &&& bytes.subrange(n - 2, n) == be16(crc16_checksum(bytes.subrange(n - 46, n - 2)))
            &&& v2.vbt_info.num_blk == info.num_blk + 1
            &&& v2.vbt_info.vbt_hash == sha256_digest(bytes.subrange(n - 54, n - 2))
        }),
{
    lemma_dump_parts(v, image);
    law_root_hash_covers_written_table(v, image);
    let (v2, bytes) = dump_outcome(v, image)->Ok_0;
    let sc = v.script;
    let a = vbt_address(sc)->Some_0;
    let info = v2.vbt_info;
    assert(info.blk == v.vbt_info.blk);
    let h = header_of(v, image);
    let p = payload(info, true, a, image);
    let t = vbt_table(info);
    assert(t.len() == 44);
    let tail = be32(a) + be32(info.vbt_len) + t + be16(crc16_checksum(t));
    let k = p.len() - 54;
    assert(p.subrange(k, p.len() as int) =~= tail);
    let n = bytes.len() as int;
    assert(bytes.subrange(n - 54, n) =~= tail) by {
        lemma_suffix_subrange(h, p, k, p.len() as int);
    }
    assert(bytes.subrange(n - 54, n - 50) =~= tail.subrange(0, 4));
    assert(bytes.subrange(n - 50, n - 46) =~= tail.subrange(4, 8));
    assert(bytes.subrange(n - 46, n - 44) =~= tail.subrange(8, 10));
    assert(bytes.subrange(n - 44, n - 42) =~= tail.subrange(10, 12));
    assert(bytes.subrange(n - 42, n - 38) =~= tail.subrange(12, 16));
    assert(bytes.subrange(n - 38, n - 34) =~= tail.subrange(16, 20));
    assert(bytes.subrange(n - 34, n - 2) =~= tail.subrange(20, 52));
    assert(tail.subrange(0, 4) =~= be32(a));
    assert(tail.subrange(4, 8) =~= be32(info.vbt_len));
    assert(tail.subrange(8, 10) =~= be16(info.vbt_format));
    assert(tail.subrange(10, 12) =~= be16((info.num_blk - 1) as u16));
    assert(tail.subrange(12, 16) =~= be32(info.blk[0].start_addr));
    assert(tail.subrange(16, 20) =~= be32(info.blk[0].length));
    assert(tail.subrange(20, 52) =~= info.blk[0].hash_value);
}

proof fn lemma_hex_upper_len(v: nat, w: nat)
    ensures
        hex_upper(v, w).len() == w,
    decreases w,
{
    if w > 0 {
        lemma_hex_upper_len(v / 16, (w - 1) as nat);
    }
}

proof fn lemma_prefix_subrange(h: Seq<u8>, p: Seq<u8>, i: int, j: int)
    requires
        0 <= i <= j <= h.len(),
    ensures
        (h + p).subrange(i, j) == h.subrange(i, j),
{
    assert((h + p).subrange(i, j) =~= h.subrange(i, j));
}

/// The header's front part (build-script lines and table lines), before the
/// count lines.
spec fn front_of(v: VbfView, image: Seq<u8>) -> Seq<u8> {
    let sc = v.script;
    let vbt = sc.flag(ConfigKey::CreateVerificationBlock);
    let a = if vbt { vbt_address(sc)->Some_0 } else { 0u32 };
    let info2 = if vbt { counted_and_hashed(v.vbt_info, a) } else { v.vbt_info };
    script_lines(sc) + (if vbt { vbt_lines(a, info2) } else { Seq::empty() })
}

proof fn lemma_header_of_split(v: VbfView, image: Seq<u8>)
    ensures
        header_of(v, image) == front_of(v, image) + count_lines(
            v.script.flag(ConfigKey::CreateVerificationBlock),
            v.vbt_info.blk[0].length,
            crc32_checksum(image),
        ),
{
    reveal(header_of);
}

proof fn lemma_count_part(vbt: bool, length: u32, crc: u32)
    ensures
        ({
            let c = count_lines(vbt, length, crc);
            let nb: nat = if vbt { 1 } else { 0 };
            let total: nat = (length + 44 * nb) as nat;
            let bl = utf8(BLOCKS@).len() as int;
            let dc = decimal(1 + nb).len() as int;
            let by = utf8(BYTES@).len() as int;
            let dl = decimal(total).len() as int;
            let ck = utf8(CHECKSUM@).len() as int;
            let hc = utf8(HEAD_CLOSE@).len() as int;
            let e = bl + dc + by + dl;
            &&& c.len() == e + ck + 8 + hc
            &&& c.subrange(0, bl) == utf8(BLOCKS@)
            &&& c.subrange(bl, bl + dc) == decimal(1 + nb)
            &&& c.subrange(bl + dc, bl + dc + by) == utf8(BYTES@)
            &&& c.subrange(e - dl, e) == decimal(total)
            &&& c.subrange(e, e + ck) == utf8(CHECKSUM@)
            &&& c.subrange(e + ck, e + ck + 8) == hex_upper(crc as nat, 8)
            &&& c.subrange(e + ck + 8, e + ck + 8 + hc) == utf8(HEAD_CLOSE@)
        }),
{
    let c = count_lines(vbt, length, crc);
    let nb: nat = if vbt { 1 } else { 0 };
    let total: nat = (length + 44 * nb) as nat;
    lemma_hex_upper_len(crc as nat, 8);
    let bl = utf8(BLOCKS@).len() as int;
    let dc = decimal(1 + nb).len() as int;
    let by = utf8(BYTES@).len() as int;
    let dl = decimal(total).len() as int;
    let ck = utf8(CHECKSUM@).len() as int;
    let e = bl + dc + by + dl;
    assert(c.subrange(0, bl) =~= utf8(BLOCKS@));
    assert(c.subrange(bl, bl + dc) =~= decimal(1 + nb));
    assert(c.subrange(bl + dc, bl + dc + by) =~= utf8(BYTES@));
    assert(c.subrange(e - dl, e) =~= decimal(total));
    assert(c.subrange(e, e + ck) =~= utf8(CHECKSUM@));
    assert(c.subrange(e + ck, e + ck + 8) =~= hex_upper(crc as nat, 8));
    assert(c.subrange(e + ck + 8, c.len() as int) =~= utf8(HEAD_CLOSE@));
}

/// The header's counts are right: in every written file the header ends
/// with the block count (1, or 2 with a table), the byte count (the image
/// block's length, plus 44 with a table) and the file checksum (the CRC-32 of
/// the whole image, eight upper-case hexadecimal digits). Each count is the
/// decimal text between its label and the next `;`, and reads back, as
/// `str::parse::<u32>` reads it, as that number.
pub proof fn law_header_counts(v: VbfView, image: Seq<u8>)
    requires
        v.vbt_info.blk.len() == 2,
        v.vbt_info.blk[0].hash_value.len() == 32,
        dump_outcome(v, image) is Ok,
    ensures
        ({
            let (v2, bytes) = dump_outcome(v, image)->Ok_0;
            let vbt = v.script.flag(ConfigKey::CreateVerificationBlock);
            let nb: int = if vbt { 1 } else { 0 };
            let total: int = v.vbt_info.blk[0].length + 44 * nb;
            let n = bytes.len() as int;
            let q = 10 + image.len() + 54 * nb;
            let ck = utf8(CHECKSUM@).len() as int;
            let hc = utf8(HEAD_CLOSE@).len() as int;
            let by = utf8(BYTES@).len() as int;
            let bl = utf8(BLOCKS@).len() as int;
            let e = n - q - hc - 8 - ck;
            let dl = decimal(total as nat).len() as int;
            let dc = decimal((1 + nb) as nat).len() as int;
            &&& 0 <= e - dl - by - dc - bl
            &&& total <= u32::MAX
            &&& bytes.subrange(e - dl - by - dc - bl, e - dl - by - dc) == utf8(BLOCKS@)
            &&& parse_u32(bytes.subrange(e - dl - by - dc, e - dl - by)) == Some((1 + nb) as u32)
            &&& bytes.subrange(e - dl - by, e - dl) == utf8(BYTES@)
            &&& bytes.subrange(e - dl, e) == decimal(total as nat)
            &&& parse_u32(bytes.subrange(e - dl, e)) == Some(total as u32)
            &&& bytes.subrange(e, e + ck) == utf8(CHECKSUM@)
            &&& bytes.subrange(e + ck, e + ck + 8) == hex_upper(crc32_checksum(image) as nat, 8)
            &&& bytes.subrange(e + ck + 8, e + ck + 8 + hc) == utf8(HEAD_CLOSE@)
        }),
{
    lemma_counts_in_file(v, image);
    lemma_count_part(
        v.script.flag(ConfigKey::CreateVerificationBlock),
        v.vbt_info.blk[0].length,
        crc32_checksum(image),
    );
    let (v2, bytes) = dump_outcome(v, image)->Ok_0;
    let vbt = v.script.flag(ConfigKey::CreateVerificationBlock);
    let nb: int = if vbt { 1 } else { 0 };
    let total: int = v.vbt_info.blk[0].length + 44 * nb;
    law_decimal_reads_back(total as u32);
    law_decimal_reads_back((1 + nb) as u32);
    let fl = front_of(v, image).len() as int;
    let ck = utf8(CHECKSUM@).len() as int;
    let hc = utf8(HEAD_CLOSE@).len() as int;
    let by = utf8(BYTES@).len() as int;
    let bl = utf8(BLOCKS@).len() as int;
    let dl = decimal(total as nat).len() as int;
    let dc = decimal((1 + nb) as nat).len() as int;
    let e0 = bl + dc + by + dl;
    let e = fl + e0;
    assert(bytes.subrange(e - dl - by - dc - bl, e - dl - by - dc) == utf8(BLOCKS@));
    assert(bytes.subrange(e - dl - by - dc, e - dl - by) == decimal((1 + nb) as nat));
    assert(bytes.subrange(e - dl - by, e - dl) == utf8(BYTES@));
    assert(bytes.subrange(e - dl, e) == decimal(total as nat));
    assert(bytes.subrange(e, e + ck) == utf8(CHECKSUM@));
    assert(bytes.subrange(e + ck, e + ck + 8) == hex_upper(crc32_checksum(image) as nat, 8));
    assert(bytes.subrange(e + ck + 8, e + ck + 8 + hc) == utf8(HEAD_CLOSE@));
}

/// Where the count lines stand in a written file: right after the header's
/// front part, and followed by the payload.
proof fn lemma_counts_in_file(v: VbfView, image: Seq<u8>)
    requires
        v.vbt_info.blk.len() == 2,
        v.vbt_info.blk[0].hash_value.len() == 32,
        dump_outcome(v, image) is Ok,
    ensures
        ({
            let (v2, bytes) = dump_outcome(v, image)->Ok_0;
            let vbt = v.script.flag(ConfigKey::CreateVerificationBlock);
            let nb: int = if vbt { 1 } else { 0 };
            let total: int = v.vbt_info.blk[0].length + 44 * nb;
            let c = count_lines(vbt, v.vbt_info.blk[0].length, crc32_checksum(image));
            let fl = front_of(v, image).len() as int;
            &&& total <= u32::MAX
            &&& bytes.len() == fl + c.len() + 10 + image.len() + 54 * nb
            &&& forall|i: int, j: int|
                fl <= i <= j <= fl + c.len() ==> #[trigger] bytes.subrange(i, j) == c.subrange(
                    i - fl,
                    j - fl,
                )
        }),
{
    lemma_dump_parts(v, image);
    lemma_header_of_split(v, image);
    let (v2, bytes) = dump_outcome(v, image)->Ok_0;
    let sc = v.script;
    let vbt = sc.flag(ConfigKey::CreateVerificationBlock);
    let a = if vbt { vbt_address(sc)->Some_0 } else { 0u32 };
    let info = v2.vbt_info;
    assert(info.blk == v.vbt_info.blk);
    lemma_image_part(info, vbt, a, image);
    let f = front_of(v, image);
    let c = count_lines(vbt, v.vbt_info.blk[0].length, crc32_checksum(image));
    let p = payload(info, vbt, a, image);
    let h = header_of(v, image);
    let fl = f.len() as int;
    assert(bytes == h + p);
    assert(h == f + c);
    assert forall|i: int, j: int| fl <= i <= j <= fl + c.len() implies #[trigger] bytes.subrange(i, j)
        == c.subrange(i - fl, j - fl) by {
        lemma_prefix_subrange(h, p, i, j);
        lemma_suffix_subrange(f, c, i - fl, j - fl);
    }
}

/// Where the build-script lines stand in a written file: at its start.
proof fn lemma_script_in_file(v: VbfView, image: Seq<u8>)
    requires
        dump_outcome(v, image) is Ok,
    ensures
        ({
            let (v2, bytes) = dump_outcome(v, image)->Ok_0;
            let sl = script_lines(v.script);
            let vbt = v.script.flag(ConfigKey::CreateVerificationBlock);
            let a = vbt_address(v.script)->Some_0;
            let vl = vbt_lines(a, v2.vbt_info);
            &&& bytes.len() >= sl.len() + (if vbt { vl.len() as int } else { 0int })
            &&& forall|i: int, j: int|
                0 <= i <= j <= sl.len() ==> #[trigger] bytes.subrange(i, j) == sl.subrange(i, j)
            &&& vbt ==> forall|i: int, j: int|
                sl.len() <= i <= j <= sl.len() + vl.len() ==> #[trigger] bytes.subrange(i, j)
                    == vl.subrange(i - sl.len(), j - sl.len())
        }),
{
    lemma_dump_parts(v, image);
    lemma_header_of_split(v, image);
    let (v2, bytes) = dump_outcome(v, image)->Ok_0;
    let sc = v.script;
    let vbt = sc.flag(ConfigKey::CreateVerificationBlock);
    let a = if vbt { vbt_address(sc)->Some_0 } else { 0u32 };
    let info = v2.vbt_info;
    let f = front_of(v, image);
    let c = count_lines(vbt, v.vbt_info.blk[0].length, crc32_checksum(image));
    let p = payload(info, vbt, a, image);
    let h = header_of(v, image);
    let sl = script_lines(sc);
    let vl = vbt_lines(a, info);
    assert(bytes == h + p);
    assert(h == f + c);
    assert forall|i: int, j: int| 0 <= i <= j <= sl.len() implies #[trigger] bytes.subrange(i, j)
        == sl.subrange(i, j) by {
        lemma_prefix_subrange(h, p, i, j);
        lemma_prefix_subrange(f, c, i, j);
        if vbt {
            lemma_prefix_subrange(sl, vl, i, j);
        } else {
            assert(f =~= sl);
        }
    }
    if vbt {
        assert(f == sl + vl);
        assert forall|i: int, j: int| sl.len() <= i <= j <= sl.len() + vl.len() implies #[trigger] bytes.subrange(i, j)
            == vl.subrange(i - sl.len(), j - sl.len()) by {
            lemma_prefix_subrange(h, p, i, j);
            lemma_prefix_subrange(f, c, i, j);
            lemma_suffix_subrange(sl, vl, i - sl.len(), j - sl.len());
        }
    }
}

/// The table lines show the configured table: with a verification block
/// table, the header lines right after the build-script lines give, in
/// eight upper-case hexadecimal digits each, the table's start address as
/// configured in the build script and the table's length, and then the
/// stored root hash in hexadecimal.
pub proof fn law_table_lines(v: VbfView, image: Seq<u8>)
    requires
        v.script.flag(ConfigKey::CreateVerificationBlock),
        dump_outcome(v, image) is Ok,
    ensures
        ({
            let (v2, bytes) = dump_outcome(v, image)->Ok_0;
            let k = script_lines(v.script).len() as int;
            let vs = utf8(VBT_START@).len() as int;
            let vl = utf8(VBT_LENGTH@).len() as int;
            let vr = utf8(VBT_ROOT@).len() as int;
            let hb = hex_bytes(v2.vbt_info.vbt_hash).len() as int;
            let vc = utf8(VBT_CLOSE@).len() as int;
            let k1 = k + vs + 8 + vl + 8 + vr;
            &&& vbt_address(v.script) is Some
            &&& bytes.len() >= k1 + hb + vc
            &&& bytes.subrange(k, k + vs) == utf8(VBT_START@)
            &&& bytes.subrange(k + vs, k + vs + 8) == hex_upper(vbt_address(v.script)->Some_0 as nat, 8)
            &&& bytes.subrange(k + vs + 8, k + vs + 8 + vl) == utf8(VBT_LENGTH@)
            &&& bytes.subrange(k + vs + 8 + vl, k + vs + 16 + vl) == hex_upper(v.vbt_info.vbt_len as nat, 8)
            &&& bytes.subrange(k + vs + 16 + vl, k1) == utf8(VBT_ROOT@)
            &&& bytes.subrange(k1, k1 + hb) == hex_bytes(v2.vbt_info.vbt_hash)
            &&& bytes.subrange(k1 + hb, k1 + hb + vc) == utf8(VBT_CLOSE@)
        }),
{
    lemma_dump_parts(v, image);
    lemma_script_in_file(v, image);
    let (v2, bytes) = dump_outcome(v, image)->Ok_0;
    let a = vbt_address(v.script)->Some_0;
    let info = v2.vbt_info;
    let lines = vbt_lines(a, info);
    lemma_hex_upper_len(a as nat, 8);
    lemma_hex_upper_len(info.vbt_len as nat, 8);
    let k = script_lines(v.script).len() as int;
    let vs = utf8(VBT_START@).len() as int;
    let vl = utf8(VBT_LENGTH@).len() as int;
    let vr = utf8(VBT_ROOT@).len() as int;
    let hb = hex_bytes(info.vbt_hash).len() as int;
    let vc = utf8(VBT_CLOSE@).len() as int;
    let k1 = vs + 8 + vl + 8 + vr;
    assert(lines.subrange(0, vs) =~= utf8(VBT_START@));
    assert(lines.subrange(vs, vs + 8) =~= hex_upper(a as nat, 8));
    assert(lines.subrange(vs + 8, vs + 8 + vl) =~= utf8(VBT_LENGTH@));
    assert(lines.subrange(vs + 8 + vl, vs + 16 + vl) =~= hex_upper(info.vbt_len as nat, 8));
    assert(lines.subrange(vs + 16 + vl, k1) =~= utf8(VBT_ROOT@));
    assert(lines.subrange(k1, k1 + hb) =~= hex_bytes(info.vbt_hash));
    assert(lines.subrange(k1 + hb, k1 + hb + vc) =~= utf8(VBT_CLOSE@));
    assert(bytes.subrange(k, k + vs) == lines.subrange(0, vs));
    assert(bytes.subrange(k + vs, k + vs + 8) == lines.subrange(vs, vs + 8));
    assert(bytes.subrange(k + vs + 8, k + vs + 8 + vl) == lines.subrange(vs + 8, vs + 8 + vl));
    assert(bytes.subrange(k + vs + 8 + vl, k + vs + 16 + vl) == lines.subrange(vs + 8 + vl, vs + 16 + vl));
    assert(bytes.subrange(k + vs + 16 + vl, k + k1) == lines.subrange(vs + 16 + vl, k1));
    assert(bytes.subrange(k + k1, k + k1 + hb) == lines.subrange(k1, k1 + hb));
    assert(bytes.subrange(k + k1 + hb, k + k1 + hb + vc) == lines.subrange(k1 + hb, k1 + hb + vc));
}

/// The data format identifier in bytes: `0x10` when compressed, else `0x00`.
pub open spec fn format_identifier(compressed: bool) -> Seq<u8> {
    if compressed {
        seq![48u8, 120u8, 49u8, 48u8]
    } else {
        seq![48u8, 120u8, 48u8, 48u8]
    }
}

proof fn lemma_format_literals()
    ensures
        utf8(FORMAT_COMPRESSED@) == format_identifier(true),
        utf8(FORMAT_PLAIN@) == format_identifier(false),
{
    reveal_strlit("0x10");
    reveal_strlit("0x00");
    let c = FORMAT_COMPRESSED@;
    let z = FORMAT_PLAIN@;
    assert(c == "0x10"@);
    assert(z == "0x00"@);
    assert(vstd::utf8::is_ascii_chars(c));
    assert(vstd::utf8::is_ascii_chars(z));
    vstd::utf8::is_ascii_chars_encode_utf8(c);
    vstd::utf8::is_ascii_chars_encode_utf8(z);
    assert(utf8(c) =~= format_identifier(true));
    assert(utf8(z) =~= format_identifier(false));
}

#[verifier::rlimit(80)]
proof fn lemma_script_part(sc: ScriptsView)
    ensures
        ({
            let sl = script_lines(sc);
            let o1 = utf8(HEAD_VERSION@).len() as int;
            let o2 = o1 + utf8(sc.text(ConfigKey::VbfVersion)).len();
            let o3 = o2 + utf8(HEAD_OPEN@).len();
            let o4 = o3 + utf8(sc.text(ConfigKey::SwPartNum)).len();
            let o5 = o4 + utf8(AFTER_PART_NUM@).len();
            let o6 = o5 + utf8(sc.text(ConfigKey::SwVersion)).len();
            let o7 = o6 + utf8(AFTER_SW_VERSION@).len();
            let o8 = o7 + utf8(sc.text(ConfigKey::SwType)).len();
            let o9 = o8 + utf8(AFTER_SW_TYPE@).len();
            let o10 = o9 + 4;
            let o11 = o10 + utf8(AFTER_FORMAT@).len();
            let o12 = o11 + utf8(sc.text(ConfigKey::EcuAddr)).len();
            let o13 = o12 + utf8(AFTER_ECU@).len();
            &&& sl.len() == o13
            &&& sl.subrange(0, o1) == utf8(HEAD_VERSION@)
            &&& sl.subrange(o1, o2) == utf8(sc.text(ConfigKey::VbfVersion))
            &&& sl.subrange(o2, o3) == utf8(HEAD_OPEN@)
            &&& sl.subrange(o3, o4) == utf8(sc.text(ConfigKey::SwPartNum))
            &&& sl.subrange(o4, o5) == utf8(AFTER_PART_NUM@)
            &&& sl.subrange(o5, o6) == utf8(sc.text(ConfigKey::SwVersion))
            &&& sl.subrange(o6, o7) == utf8(AFTER_SW_VERSION@)
            &&& sl.subrange(o7, o8) == utf8(sc.text(ConfigKey::SwType))
            &&& sl.subrange(o8, o9) == utf8(AFTER_SW_TYPE@)
            &&& sl.subrange(o9, o10) == format_identifier(sc.flag(ConfigKey::Compressed))
            &&& (sl[o9 + 2] == 49u8 <==> sc.flag(ConfigKey::Compressed))
            &&& sl.subrange(o10, o11) == utf8(AFTER_FORMAT@)
            &&& sl.subrange(o11, o12) == utf8(sc.text(ConfigKey::EcuAddr))
            &&& sl.subrange(o12, o13) == utf8(AFTER_ECU@)
        }),
{
    lemma_format_literals();
    let sl = script_lines(sc);
    let o1 = utf8(HEAD_VERSION@).len() as int;
    let o2 = o1 + utf8(sc.text(ConfigKey::VbfVersion)).len();
    let o3 = o2 + utf8(HEAD_OPEN@).len();
    let o4 = o3 + utf8(sc.text(ConfigKey::SwPartNum)).len();
    let o5 = o4 + utf8(AFTER_PART_NUM@).len();
    let o6 = o5 + utf8(sc.text(ConfigKey::SwVersion)).len();
    let o7 = o6 + utf8(AFTER_SW_VERSION@).len();
    let o8 = o7 + utf8(sc.text(ConfigKey::SwType)).len();
    let o9 = o8 + utf8(AFTER_SW_TYPE@).len();
    let o10 = o9 + 4;
    let o11 = o10 + utf8(AFTER_FORMAT@).len();
    let o12 = o11 + utf8(sc.text(ConfigKey::EcuAddr)).len();
    let o13 = o12 + utf8(AFTER_ECU@).len();
    let fmt = format_identifier(sc.flag(ConfigKey::Compressed));
    assert(utf8(if sc.flag(ConfigKey::Compressed) { FORMAT_COMPRESSED@ } else { FORMAT_PLAIN@ })
        == fmt);
    assert(sl.len() == o13);
    assert(sl.subrange(0, o1) =~= utf8(HEAD_VERSION@));
    assert(sl.subrange(o1, o2) =~= utf8(sc.text(ConfigKey::VbfVersion)));
    assert(sl.subrange(o2, o3) =~= utf8(HEAD_OPEN@));
    assert(sl.subrange(o3, o4) =~= utf8(sc.text(ConfigKey::SwPartNum)));
    assert(sl.subrange(o4, o5) =~= utf8(AFTER_PART_NUM@));
    assert(sl.subrange(o5, o6) =~= utf8(sc.text(ConfigKey::SwVersion)));
    assert(sl.subrange(o6, o7) =~= utf8(AFTER_SW_VERSION@));
    assert(sl.subrange(o7, o8) =~= utf8(sc.text(ConfigKey::SwType)));
    assert(sl.subrange(o8, o9) =~= utf8(AFTER_SW_TYPE@));
    assert(sl.subrange(o9, o10) =~= fmt);
    assert(sl.subrange(o10, o11) =~= utf8(AFTER_FORMAT@));
    assert(sl.subrange(o11, o12) =~= utf8(sc.text(ConfigKey::EcuAddr)));
    assert(sl.subrange(o12, o13) =~= utf8(AFTER_ECU@));
    assert(sl[o9 + 2] == sl.subrange(o9, o10)[2]);
}

/// The build-script lines carry the script's values: every written file
/// starts with the format version, the software part number, the software
/// version, the software part type, the data format identifier and the ECU
/// address, each between its fixed label texts. The data format identifier
/// is `0x10` exactly when the script's `Compressed` switch is on and `0x00`
/// exactly when it is off, whatever the other switches.
pub proof fn law_script_fields(v: VbfView, image: Seq<u8>)
    requires
        dump_outcome(v, image) is Ok,
    ensures
        ({
            let (v2, bytes) = dump_outcome(v, image)->Ok_0;
            let sc = v.script;
            let o1 = utf8(HEAD_VERSION@).len() as int;
            let o2 = o1 + utf8(sc.text(ConfigKey::VbfVersion)).len();
            let o3 = o2 + utf8(HEAD_OPEN@).len();
            let o4 = o3 + utf8(sc.text(ConfigKey::SwPartNum)).len();
            let o5 = o4 + utf8(AFTER_PART_NUM@).len();
            let o6 = o5 + utf8(sc.text(ConfigKey::SwVersion)).len();
            let o7 = o6 + utf8(AFTER_SW_VERSION@).len();
            let o8 = o7 + utf8(sc.text(ConfigKey::SwType)).len();
            let o9 = o8 + utf8(AFTER_SW_TYPE@).len();
            let o10 = o9 + 4;
            let o11 = o10 + utf8(AFTER_FORMAT@).len();
            let o12 = o11 + utf8(sc.text(ConfigKey::EcuAddr)).len();
            let o13 = o12 + utf8(AFTER_ECU@).len();
            &&& bytes.len() >= o13
            &&& script_lines(sc).len() == o13
            &&& bytes.subrange(0, o1) == utf8(HEAD_VERSION@)
            &&& bytes.subrange(o1, o2) == utf8(sc.text(ConfigKey::VbfVersion))
            &&& bytes.subrange(o2, o3) == utf8(HEAD_OPEN@)
            &&& bytes.subrange(o3, o4) == utf8(sc.text(ConfigKey::SwPartNum))
            &&& bytes.subrange(o4, o5) == utf8(AFTER_PART_NUM@)
            &&& bytes.subrange(o5, o6) == utf8(sc.text(ConfigKey::SwVersion))
            &&& bytes.subrange(o6, o7) == utf8(AFTER_SW_VERSION@)
            &&& bytes.subrange(o7, o8) == utf8(sc.text(ConfigKey::SwType))
            &&& bytes.subrange(o8, o9) == utf8(AFTER_SW_TYPE@)
            &&& bytes.subrange(o9, o10) == format_identifier(sc.flag(ConfigKey::Compressed))
            &&& (bytes[o9 + 2] == 49u8 <==> sc.flag(ConfigKey::Compressed))
            &&& bytes.subrange(o10, o11) == utf8(AFTER_FORMAT@)
            &&& bytes.subrange(o11, o12) == utf8(sc.text(ConfigKey::EcuAddr))
            &&& bytes.subrange(o12, o13) == utf8(AFTER_ECU@)
        }),
{
    lemma_script_in_file(v, image);
    lemma_script_part(v.script);
    let (v2, bytes) = dump_outcome(v, image)->Ok_0;
    let sc = v.script;
    let sl = script_lines(sc);
    let o1 = utf8(HEAD_VERSION@).len() as int;
    let o2 = o1 + utf8(sc.text(ConfigKey::VbfVersion)).len();
    let o3 = o2 + utf8(HEAD_OPEN@).len();
    let o4 = o3 + utf8(sc.text(ConfigKey::SwPartNum)).len();
    let o5 = o4 + utf8(AFTER_PART_NUM@).len();
    let o6 = o5 + utf8(sc.text(ConfigKey::SwVersion)).len();
    let o7 = o6 + utf8(AFTER_SW_VERSION@).len();
    let o8 = o7 + utf8(sc.text(ConfigKey::SwType)).len();
    let o9 = o8 + utf8(AFTER_SW_TYPE@).len();
    let o10 = o9 + 4;
    let o11 = o10 + utf8(AFTER_FORMAT@).len();
    let o12 = o11 + utf8(sc.text(ConfigKey::EcuAddr)).len();
    let o13 = o12 + utf8(AFTER_ECU@).len();
    assert(bytes.subrange(0, o1) == sl.subrange(0, o1));
    assert(bytes.subrange(o1, o2) == sl.subrange(o1, o2));
    assert(bytes.subrange(o2, o3) == sl.subrange(o2, o3));
    assert(bytes.subrange(o3, o4) == sl.subrange(o3, o4));
    assert(bytes.subrange(o4, o5) == sl.subrange(o4, o5));
    assert(bytes.subrange(o5, o6) == sl.subrange(o5, o6));
    assert(bytes.subrange(o6, o7) == sl.subrange(o6, o7));
    assert(bytes.subrange(o7, o8) == sl.subrange(o7, o8));
    assert(bytes.subrange(o8, o9) == sl.subrange(o8, o9));
    assert(bytes.subrange(o9, o10) == sl.subrange(o9, o10));
    assert(bytes.subrange(o10, o11) == sl.subrange(o10, o11));
    assert(bytes.subrange(o11, o12) == sl.subrange(o11, o12));
    assert(bytes.subrange(o12, o13) == sl.subrange(o12, o13));
    assert(bytes[o9 + 2] == bytes.subrange(o9, o10)[2]);
}

/// The number a big-endian byte string stands for.
pub open spec fn big_endian_value(b: Seq<u8>) -> nat
    decreases b.len(),
{
    if b.len() == 0 {
        0
    } else {
        big_endian_value(b.drop_last()) * 256 + b.last() as nat
    }
}

/// Big-endian encodings read back: the bytes written for a 32-bit or a
/// 16-bit field are that many bytes and stand, most significant first, for
/// the field's value.
pub proof fn law_big_endian_reads_back(v32: u32, v16: u16)
    ensures
        be32(v32).len() == 4,
        big_endian_value(be32(v32)) == v32,
        be16(v16).len() == 2,
        big_endian_value(be16(v16)) == v16,
{
    let b = be32(v32);
    let e = Seq::<u8>::empty();
    let s1 = seq![b[0]];
    let s2 = seq![b[0], b[1]];
    let s3 = seq![b[0], b[1], b[2]];
    assert(s1.drop_last() =~= e);
    assert(s2.drop_last() =~= s1);
    assert(s3.drop_last() =~= s2);
    assert(b.drop_last() =~= s3);
    assert(big_endian_value(e) == 0);
    assert(big_endian_value(s1) == b[0] as nat);
    assert(big_endian_value(s2) == b[0] as nat * 256 + b[1] as nat);
    assert(big_endian_value(s3) == (b[0] as nat * 256 + b[1] as nat) * 256 + b[2] as nat);
    assert(big_endian_value(b) == ((b[0] as nat * 256 + b[1] as nat) * 256 + b[2] as nat) * 256
        + b[3] as nat);
    let x = v32 as int;
    let d0 = x / 0x100_0000;
    let d1 = (x / 0x1_0000) % 0x100;
    let d2 = (x / 0x100) % 0x100;
    let d3 = x % 0x100;
    assert(((d0 * 256 + d1) * 256 + d2) * 256 + d3 == x) by (nonlinear_arith)
        requires
            0 <= x,
            d0 == x / 0x100_0000,
            d1 == (x / 0x1_0000) % 0x100,
            d2 == (x / 0x100) % 0x100,
            d3 == x % 0x100,
    {
        vstd::arithmetic::div_mod::lemma_fundamental_div_mod(x, 256);
        vstd::arithmetic::div_mod::lemma_fundamental_div_mod(x / 256, 256);
        vstd::arithmetic::div_mod::lemma_fundamental_div_mod(x / 65536, 256);
        vstd::arithmetic::div_mod::lemma_div_denominator(x, 256, 256);
        vstd::arithmetic::div_mod::lemma_div_denominator(x, 65536, 256);
    }
    let c = be16(v16);
    let t1 = seq![c[0]];
    assert(t1.drop_last() =~= e);
    assert(c.drop_last() =~= t1);
    assert(big_endian_value(t1) == c[0] as nat);
    assert(big_endian_value(c) == c[0] as nat * 256 + c[1] as nat);
}

/// The value of an upper-case hexadecimal digit, if the byte is one.
pub open spec fn upper_hex_value(b: u8) -> Option<nat> {
    if 48 <= b <= 57 {
        Some((b - 48) as nat)
    } else if 65 <= b <= 70 {
        Some((b - 55) as nat)
    } else {
        None
    }
}

/// The number an upper-case hexadecimal text stands for, if it is one.
pub open spec fn upper_hex_text_value(s: Seq<u8>) -> Option<nat>
    decreases s.len(),
{
    if s.len() == 0 {
        Some(0)
    } else {
        match (upper_hex_text_value(s.drop_last()), upper_hex_value(s.last())) {
            (Some(h), Some(d)) => Some(h * 16 + d),
            _ => None,
        }
    }
}

/// 16 to the `w`.
pub open spec fn pow16(w: nat) -> nat
    decreases w,
{
    if w == 0 {
        1
    } else {
        16 * pow16((w - 1) as nat)
    }
}

proof fn lemma_hex_reads_back(v: nat, w: nat)
    ensures
        upper_hex_text_value(hex_upper(v, w)) == Some(v % pow16(w)),
    decreases w,
{
    if w > 0 {
        lemma_hex_reads_back(v / 16, (w - 1) as nat);
        let s = hex_upper(v, w);
        assert(s.drop_last() =~= hex_upper(v / 16, (w - 1) as nat));
        let p = pow16((w - 1) as nat);
        assert(p > 0) by {
            lemma_pow16_pos((w - 1) as nat);
        }
        assert((v / 16) % p * 16 + v % 16 == v % (16 * p)) by (nonlinear_arith)
            requires
                p > 0,
        {
            vstd::arithmetic::div_mod::lemma_mod_mod(v as int, 16, p as int);
            vstd::arithmetic::div_mod::lemma_fundamental_div_mod(v as int, 16);
            vstd::arithmetic::div_mod::lemma_fundamental_div_mod((v / 16) as int, p as int);
            vstd::arithmetic::div_mod::lemma_fundamental_div_mod(v as int, 16 * p as int);
            vstd::arithmetic::div_mod::lemma_breakdown(v as int, 16, p as int);
        }
    }
}

proof fn lemma_pow16_pos(w: nat)
    ensures
        pow16(w) > 0,
    decreases w,
{
    if w > 0 {
        lemma_pow16_pos((w - 1) as nat);
    }
}

/// Hexadecimal text reads back: the text written for a number in `w`
/// upper-case hexadecimal digits (as the header writes addresses, lengths,
/// the root hash and the file checksum) is `w` digits from `0-9A-F` that
/// stand for the number modulo 16^w; for a `u32` in eight digits, for the
/// number itself.
pub proof fn law_hex_reads_back(v: nat, w: nat, x: u32)
    ensures
        hex_upper(v, w).len() == w,
        upper_hex_text_value(hex_upper(v, w)) == Some(v % pow16(w)),
        upper_hex_text_value(hex_upper(x as nat, 8)) == Some(x as nat),
{
    lemma_hex_upper_len(v, w);
    lemma_hex_reads_back(v, w);
    lemma_hex_reads_back(x as nat, 8);
    reveal_with_fuel(pow16, 9);
    assert(pow16(8) == 0x1_0000_0000);
}

} // verus!

//! Reader for the bitstream container format: the magic string at the
//! start, the section-header table, and the embedded build-metadata
//! sections (JSON documents parsed through `serde_json`). The typed model
//! of the build metadata lets callers derive a kernel's argument map from
//! the container instead of writing it by hand.

use vstd::prelude::*;
use crate::buffer::IOMode;
use crate::bytecodec::{le_val, le_read};
use crate::error::Error;
use crate::kernel::ArgumentType;

verus! {

/// The section kind code of a build-metadata section.
pub const BUILD_METADATA_SECTION: u32 = 14;

/// The number of bytes of the container's fixed top header.
pub const AXLF_HEADER_BYTES: usize = 456;

/// The size in bytes of one section header record.
pub const SECTION_HEADER_BYTES: usize = 40;

/// The byte offset of the section count in the top header.
pub const NUM_SECTIONS_OFFSET: usize = 448;

/// A section header of the container; the name is left out as irrelevant
/// here.
pub struct SectionHeader {
    pub kind: u32,
    pub offset: u64,
    pub size: u64,
}

/// The container must start with this magic string.
pub open spec fn magic_ok(data: Seq<u8>) -> bool {
    data.len() >= 7 && data.subrange(0, 7) =~= "xclbin2"@.map_values(|c: char| c as u8)
}

/// How many leading bytes the magic-string diagnostic carries.
pub open spec fn found_prefix_len(data: Seq<u8>) -> int {
    if data.len() < 7 {
        data.len() as int
    } else {
        7
    }
}

/// Checks the magic string at the start of a container image. The error
/// carries what was found instead: the image's leading bytes, decoded
/// as text (pinned down here for printable content).
pub fn check_magic(data: &Vec<u8>) -> (r: Result<(), Error>)
    ensures
        r is Ok <==> magic_ok(data@),
        r is Err ==> (r matches Err(e) && e is XclbinInvalidMagicString),
        r matches Err(e) ==> (e matches Error::XclbinInvalidMagicString(found) ==> ((forall|i: int|
            0 <= i < found_prefix_len(data@) ==> 0 < #[trigger] data@[i] < 128) ==> found@.len()
            == found_prefix_len(data@) && (forall|i: int|
            0 <= i < found_prefix_len(data@) ==> #[trigger] found@[i] == data@[i] as char))),
{
    proof {
        reveal_strlit("xclbin2");
    }
    let magic: &str = "xclbin2";
    let mb = magic.as_bytes();
    proof {
        vstd::string::is_ascii_spec_bytes(magic);
        assert(magic.is_ascii());
    }
    if data.len() < 7 {
        return Err(Error::XclbinInvalidMagicString(found_prefix(data)));
    }
    let mut i: usize = 0;
    while i < 7
        invariant
            i <= 7,
            data@.len() >= 7,
            mb@ =~= "xclbin2"@.map_values(|c: char| c as u8),
            mb@.len() == 7,
            forall|j: int| 0 <= j < i ==> data@[j] == mb@[j],
        decreases 7 - i,
    {
        if data[i] != mb[i] {
            proof {
                assert(data@.subrange(0, 7)[i as int] != mb@[i as int]);
            }
            return Err(Error::XclbinInvalidMagicString(found_prefix(data)));
        }
        i = i + 1;
    }
    proof {
        assert(data@.subrange(0, 7) =~= mb@);
    }
    Ok(())
}

/// Renders the start of the image for the error message.
fn found_prefix(data: &Vec<u8>) -> (r: String)
    ensures
        (forall|i: int| 0 <= i < found_prefix_len(data@) ==> 0 < #[trigger] data@[i] < 128)
            ==> r@.len() == found_prefix_len(data@) && (forall|i: int|
            0 <= i < found_prefix_len(data@) ==> #[trigger] r@[i] == data@[i] as char),
{
    let n = if data.len() < 7 {
        data.len()
    } else {
        7
    };
    let head = crate::bytecodec::extract(data, 0, n);
    proof {
        assert(head@ =~= data@.subrange(0, found_prefix_len(data@)));
    }
    bytes_to_lossy_string(&head)
}

/// Relies on `String::from_utf8_lossy`: decodes bytes as UTF-8, replacing
/// invalid sequences; ASCII bytes decode to themselves.
#[verifier::external_body]
fn bytes_to_lossy_string(b: &Vec<u8>) -> (r: String)
    ensures
        (forall|i: int| 0 <= i < b@.len() ==> 0 < #[trigger] b@[i] < 128) ==> r@.len() == b@.len()
            && (forall|i: int| 0 <= i < b@.len() ==> r@[i] == b@[i] as char),
{
    String::from_utf8_lossy(b.as_slice()).into_owned()
}

/// The byte range `[s, s + 40)` of the `i`-th section header is in the
/// image.
pub open spec fn header_in_range(data: Seq<u8>, i: int) -> bool {
    AXLF_HEADER_BYTES + SECTION_HEADER_BYTES * i + SECTION_HEADER_BYTES <= data.len()
}

/// The number of sections the top header declares.
pub open spec fn spec_num_sections(data: Seq<u8>) -> nat {
    le_val(data.subrange(NUM_SECTIONS_OFFSET as int, NUM_SECTIONS_OFFSET + 4))
}

/// The `i`-th section header the image declares.
pub open spec fn spec_section_header(data: Seq<u8>, i: int) -> SectionHeader {
    let s = AXLF_HEADER_BYTES + SECTION_HEADER_BYTES * i;
    SectionHeader {
        kind: le_val(data.subrange(s, s + 4)) as u32,
        offset: le_val(data.subrange(s + 24, s + 32)) as u64,
        size: le_val(data.subrange(s + 32, s + 40)) as u64,
    }
}

/// Reads the section-header table: the count at its fixed offset, then one
/// fixed-size record per section. Fails with `XclbinByteReadingError` on
/// the first field whose bytes are out of the image, carrying that range.
pub fn get_section_data(data: &Vec<u8>) -> (r: Result<Vec<SectionHeader>, Error>)
    ensures
        r is Ok <==> NUM_SECTIONS_OFFSET + 4 <= data@.len() && (forall|i: int|
            0 <= i < spec_num_sections(data@) ==> header_in_range(data@, i)),
        r matches Ok(v) ==> {
            &&& v@.len() == spec_num_sections(data@)
            &&& forall|i: int|
                0 <= i < v@.len() ==> #[trigger] v@[i] == spec_section_header(data@, i)
        },
        r is Err ==> (r matches Err(e) && e is XclbinByteReadingError),
        r is Err && NUM_SECTIONS_OFFSET + 4 > data@.len() ==> r == Err::<Vec<SectionHeader>, Error>(
            Error::XclbinByteReadingError(NUM_SECTIONS_OFFSET, (NUM_SECTIONS_OFFSET + 4) as usize),
        ),
        r is Err && NUM_SECTIONS_OFFSET + 4 <= data@.len() ==> (exists|i: int|
            {
                &&& 0 <= i < spec_num_sections(data@)
                &&& !(#[trigger] header_in_range(data@, i))
                &&& (forall|j: int| 0 <= j < i ==> header_in_range(data@, j))
                &&& r == Err::<Vec<SectionHeader>, Error>(
                    Error::XclbinByteReadingError(
                        sat_usize(AXLF_HEADER_BYTES + SECTION_HEADER_BYTES * i),
                        sat_usize(
                            AXLF_HEADER_BYTES + SECTION_HEADER_BYTES * i + SECTION_HEADER_BYTES,
                        ),
                    ),
                )
            }),
{
    if data.len() < NUM_SECTIONS_OFFSET + 4 {
        return Err(Error::XclbinByteReadingError(NUM_SECTIONS_OFFSET, NUM_SECTIONS_OFFSET + 4));
    }
    let num_sections = le_read(data, NUM_SECTIONS_OFFSET, 4);
    proof {
        vstd::arithmetic::power2::lemma2_to64();
        assert(num_sections == spec_num_sections(data@));
    }
    proof {
        vstd::arithmetic::power2::lemma2_to64();
    }
    let n = num_sections as usize;
    let mut headers: Vec<SectionHeader> = Vec::new();
    let mut i: usize = 0;
    while i < n
        invariant
            i <= n,
            n == spec_num_sections(data@),
            n <= 0xffffffff,
            NUM_SECTIONS_OFFSET + 4 <= data@.len(),
            headers@.len() == i,
            forall|j: int|
                0 <= j < i ==> #[trigger] headers@[j] == spec_section_header(data@, j),
            forall|j: int| 0 <= j < i ==> header_in_range(data@, j),
        decreases n - i,
    {
        // The record offset, computed wide enough that it cannot wrap.
        proof {
            assert((SECTION_HEADER_BYTES as u64) * (i as u64) <= 40u64 * 0xffffffffu64)
                by (nonlinear_arith)
                requires
                    i <= 0xffffffffu64,
            ;
        }
        let s64 = (AXLF_HEADER_BYTES as u64) + (SECTION_HEADER_BYTES as u64) * (i as u64);
        if s64 + (SECTION_HEADER_BYTES as u64) > (data.len() as u64) {
            proof {
                assert(!header_in_range(data@, i as int));
            }
            return Err(
                Error::XclbinByteReadingError(
                    to_sat_usize(s64 as u128),
                    to_sat_usize((s64 as u128) + (SECTION_HEADER_BYTES as u128)),
                ),
            );
        }
        let s = s64 as usize;
        let kind = le_read(data, s, 4);
        let offset = le_read(data, s + 24, 8);
        let size = le_read(data, s + 32, 8);
        proof {
            vstd::arithmetic::power2::lemma2_to64();
            vstd::arithmetic::power2::lemma2_to64_rest();
        }
        headers.push(
            SectionHeader { kind: kind as u32, offset: offset as u64, size: size as u64 },
        );
        proof {
            assert(headers@[i as int] == spec_section_header(data@, i as int));
        }
        i = i + 1;
    }
    Ok(headers)
}

/// Whether the bytes form one valid JSON document, exactly as
/// `serde_json` decides it. The outcome depends on the bytes alone.
pub uninterp spec fn is_json(bytes: Seq<u8>) -> bool;

/// Relies on `serde_json::from_slice::<Value>`: parses one JSON document
/// from the bytes; succeeds exactly on valid JSON. A parse failure is
/// carried as the parser's diagnostic message (its display form).
#[verifier::external_body]
fn parse_json_value(bytes: &Vec<u8>) -> (r: Result<serde_json::Value, String>)
    ensures
        r is Ok <==> is_json(bytes@),
{
    match serde_json::from_slice(bytes.as_slice()) {
        Ok(v) => Ok(v),
        Err(e) => Err(e.to_string()),
    }
}

#[verifier::external_type_specification]
#[verifier::external_body]
pub struct ExValue(serde_json::Value);

/// The positions of the build-metadata sections among the headers, in
/// order.
pub open spec fn meta_indices(headers: Seq<SectionHeader>) -> Seq<int>
    decreases headers.len(),
{
    if headers.len() == 0 {
        Seq::empty()
    } else {
        let p = meta_indices(headers.drop_last());
        if headers.last().kind == BUILD_METADATA_SECTION {
            p.push(headers.len() - 1)
        } else {
            p
        }
    }
}

/// Every metadata position is in range and names a build-metadata header.
pub proof fn lemma_meta_indices(headers: Seq<SectionHeader>)
    ensures
        forall|k: int|
            0 <= k < meta_indices(headers).len() ==> 0 <= #[trigger] meta_indices(headers)[k]
                < headers.len() && headers[meta_indices(headers)[k]].kind
                == BUILD_METADATA_SECTION,
    decreases headers.len(),
{
    if headers.len() > 0 {
        lemma_meta_indices(headers.drop_last());
        let p = meta_indices(headers.drop_last());
        assert forall|k: int|
            0 <= k < meta_indices(headers).len() implies 0 <= #[trigger] meta_indices(headers)[k]
            < headers.len() && headers[meta_indices(headers)[k]].kind
            == BUILD_METADATA_SECTION by {
            if headers.last().kind == BUILD_METADATA_SECTION {
                if k < p.len() {
                    assert(meta_indices(headers)[k] == p[k]);
                    assert(headers.drop_last()[p[k]] == headers[p[k]]);
                } else {
                    assert(meta_indices(headers)[k] == headers.len() - 1);
                }
            } else {
                assert(meta_indices(headers)[k] == p[k]);
                assert(headers.drop_last()[p[k]] == headers[p[k]]);
            }
        }
    }
}

/// A value saturated into the unsigned machine-word range, for carrying a
/// byte position in an error.
pub open spec fn sat_usize(x: int) -> usize {
    if x > usize::MAX as int {
        usize::MAX
    } else if x < 0 {
        0
    } else {
        x as usize
    }
}

/// Saturates a wide byte position into the machine-word range.
fn to_sat_usize(x: u128) -> (r: usize)
    ensures
        r == sat_usize(x as int),
{
    if x > (usize::MAX as u128) {
        usize::MAX
    } else {
        x as usize
    }
}

/// One extracted build-metadata section: `Ok` with the parsed document
/// exactly when the header's byte range lies in the image and holds valid
/// JSON; the out-of-range error carries the range (saturated), and invalid
/// content carries the parser's message (the error kind the container
/// reader reports for malformed content).
pub open spec fn metadata_entry_ok(
    data: Seq<u8>,
    headers: Seq<SectionHeader>,
    hi: int,
    e: Result<serde_json::Value, Error>,
) -> bool {
    let h = headers[hi];
    &&& (e is Ok <==> h.offset + h.size <= data.len() && is_json(
        data.subrange(h.offset as int, h.offset + h.size),
    ))
    &&& (h.offset + h.size > data.len() ==> e == Err::<serde_json::Value, Error>(
        Error::XclbinByteReadingError(
            sat_usize(h.offset as int),
            sat_usize(h.offset + h.size),
        ),
    ))
    &&& (e matches Err(err) ==> (h.offset + h.size <= data.len()
        ==> err is XclbinInvalidMagicString))
}

/// Extracts every build-metadata section and parses it as JSON: one entry
/// per section of that kind, in header order, each as
/// [`metadata_entry_ok`] describes.
pub fn get_build_metadata(data: &Vec<u8>, headers: &Vec<SectionHeader>) -> (r: Vec<
    Result<serde_json::Value, Error>,
>)
    ensures
        r@.len() == meta_indices(headers@).len(),
        forall|k: int|
            0 <= k < r@.len() ==> metadata_entry_ok(
                data@,
                headers@,
                meta_indices(headers@)[k],
                #[trigger] r@[k],
            ),
{
    let mut out: Vec<Result<serde_json::Value, Error>> = Vec::new();
    let mut i: usize = 0;
    let dlen = data.len() as u64;
    while i < headers.len()
        invariant
            i <= headers@.len(),
            dlen == data@.len(),
            out@.len() == meta_indices(headers@.take(i as int)).len(),
            forall|k: int|
                0 <= k < out@.len() ==> 0 <= #[trigger] meta_indices(headers@.take(i as int))[k]
                    < i,
            forall|k: int|
                0 <= k < out@.len() ==> metadata_entry_ok(
                    data@,
                    headers@,
                    meta_indices(headers@.take(i as int))[k],
                    #[trigger] out@[k],
                ),
        decreases headers@.len() - i,
    {
        proof {
            assert(headers@.take(i + 1).drop_last() =~= headers@.take(i as int));
            assert(headers@.take(i + 1).last() == headers@[i as int]);
            lemma_meta_indices(headers@.take(i as int));
        }
        let h = &headers[i];
        if h.kind == BUILD_METADATA_SECTION {
            proof {
                assert(meta_indices(headers@.take(i + 1)) =~= meta_indices(
                    headers@.take(i as int),
                ).push(i as int));
            }
            let offset = h.offset;
            let size = h.size;
            if offset > dlen || size > dlen - offset {
                let end = (offset as u128) + (size as u128);
                out.push(
                    Err(
                        Error::XclbinByteReadingError(
                            to_sat_usize(offset as u128),
                            to_sat_usize(end),
                        ),
                    ),
                );
                proof {
                    assert(metadata_entry_ok(data@, headers@, i as int, out@.last()));
                }
            } else {
                let section = crate::bytecodec::extract(data, offset as usize, size as usize);
                proof {
                    assert(data@.len() == data.len());
                    assert(section@ =~= data@.subrange(h.offset as int, h.offset + h.size));
                }
                match parse_json_value(&section) {
                    Ok(v) => out.push(Ok(v)),
                    Err(msg) => out.push(Err(Error::XclbinInvalidMagicString(msg))),
                }
                proof {
                    assert(metadata_entry_ok(data@, headers@, i as int, out@.last()));
                }
            }
        } else {
            proof {
                assert(meta_indices(headers@.take(i + 1)) =~= meta_indices(
                    headers@.take(i as int),
                ));
            }
        }
        i = i + 1;
    }
    proof {
        assert(headers@.take(headers@.len() as int) =~= headers@);
    }
    out
}

/// One kernel argument as the build metadata describes it.
pub struct XclbinArgument {
    /// The argument's slot index.
    pub id: u32,
    pub name: String,
    pub arg_type: String,
    /// The byte size of the argument's buffer, for buffer-backed slots.
    pub size: u32,
    /// Nonzero for a buffer-backed (pointer) argument.
    pub address_qualifier: u32,
}

/// One kernel as the build metadata describes it.
pub struct XclbinKernel {
    pub arguments: Vec<XclbinArgument>,
    pub name: String,
    pub instances: Vec<String>,
    pub ports: Vec<String>,
}

/// One user region of the image.
pub struct UserRegion {
    pub base_address: String,
    pub instance_path: String,
    pub kernels: Vec<XclbinKernel>,
    pub name: String,
    pub typ: String,
}

/// The platform part of the build metadata.
pub struct DSA {
    pub board_id: String,
    pub description: String,
    pub name: String,
    pub vendor: String,
    pub version_major: String,
    pub version_minor: String,
}

/// The image part of the build metadata.
pub struct XCLBIN {
    pub user_regions: Vec<UserRegion>,
}

/// The content of one build-metadata section.
pub struct BuildMetadataContent {
    pub dsa: DSA,
    pub xclbin: XCLBIN,
}

/// A parsed build-metadata section.
pub struct BuildMetadata {
    pub build_metadata: BuildMetadataContent,
}

/// The region lists a kernel of the name.
pub open spec fn region_has(region: UserRegion, name: Seq<char>) -> bool {
    exists|j: int|
        0 <= j < region.kernels.len() && (#[trigger] region.kernels[j]).name@ == name
}

/// A kernel of the metadata carries one argument per slot, in slot order.
pub open spec fn arguments_in_slot_order(args: Seq<XclbinArgument>) -> bool {
    forall|i: int| 0 <= i < args.len() ==> (#[trigger] args[i]).id == i
}

impl BuildMetadata {
    /// The named kernel in any user region, if the metadata lists one.
    pub fn get_kernel(&self, kernel_name: &str) -> (r: Option<&XclbinKernel>)
        ensures
            ({
                let regions = self.build_metadata.xclbin.user_regions@;
                &&& (r is Some <==> exists|i: int|
                    0 <= i < regions.len() && region_has(#[trigger] regions[i], kernel_name@))
                &&& (r matches Some(k) ==> exists|i: int|
                    {
                        &&& 0 <= i < regions.len()
                        &&& #[trigger] region_has(regions[i], kernel_name@)
                        &&& (forall|i2: int|
                            0 <= i2 < i ==> !region_has(#[trigger] regions[i2], kernel_name@))
                        &&& exists|j: int|
                            {
                                &&& 0 <= j < regions[i].kernels.len()
                                &&& (#[trigger] regions[i].kernels[j]).name@ == kernel_name@
                                &&& regions[i].kernels[j] == *k
                                &&& (forall|j2: int|
                                    0 <= j2 < j ==> (#[trigger] regions[i].kernels[j2]).name@
                                        != kernel_name@)
                            }
                    })
            }),
    {
        let regions = &self.build_metadata.xclbin.user_regions;
        let mut i: usize = 0;
        while i < regions.len()
            invariant
                regions == &self.build_metadata.xclbin.user_regions,
                i <= regions@.len(),
                forall|i2: int| 0 <= i2 < i ==> !region_has(#[trigger] regions@[i2], kernel_name@),
            decreases regions@.len() - i,
        {
            let kernels = &regions[i].kernels;
            let mut j: usize = 0;
            while j < kernels.len()
                invariant
                    regions == &self.build_metadata.xclbin.user_regions,
                    j <= kernels@.len(),
                    i < regions@.len(),
                    kernels == &(regions@[i as int].kernels),
                    forall|i2: int|
                        0 <= i2 < i ==> !region_has(#[trigger] regions@[i2], kernel_name@),
                    forall|j2: int|
                        0 <= j2 < j ==> (#[trigger] kernels@[j2]).name@ != kernel_name@,
                decreases kernels@.len() - j,
            {
                if crate::platform::str_eq(kernels[j].name.as_str(), kernel_name) {
                    proof {
                        let rs = self.build_metadata.xclbin.user_regions@;
                        assert(kernels@[j as int].name@ == kernel_name@);
                        assert(rs[i as int].kernels@ == kernels@);
                        assert((rs[i as int].kernels)@[j as int].name@ == kernel_name@);
                        assert(region_has(rs[i as int], kernel_name@));
                        assert(exists|jj: int|
                            {
                                &&& 0 <= jj < rs[i as int].kernels.len()
                                &&& (#[trigger] rs[i as int].kernels[jj]).name@ == kernel_name@
                                &&& rs[i as int].kernels[jj] == kernels@[j as int]
                                &&& (forall|j2: int|
                                    0 <= j2 < jj ==> (#[trigger] rs[i as int].kernels[j2]).name@
                                        != kernel_name@)
                            }) by {
                            let jj0 = j as int;
                            assert(0 <= jj0 < rs[i as int].kernels.len());
                            assert((rs[i as int].kernels[jj0]).name@ == kernel_name@);
                            assert(rs[i as int].kernels[jj0] == kernels@[jj0]);
                            assert(forall|j2: int|
                                0 <= j2 < jj0 ==> (#[trigger] rs[i as int].kernels[j2]).name@
                                    != kernel_name@);
                        }
                    }
                    return Some(&kernels[j]);
                }
                j = j + 1;
            }
            proof {
                assert(kernels@ == regions@[i as int].kernels@);
                assert(!region_has(regions@[i as int], kernel_name@));
            }
            i = i + 1;
        }
        None
    }
}

/// The argument map a metadata kernel implies: a slot is passed directly
/// unless its argument is buffer-backed, in which case a buffer of the
/// declared size still has to be allocated (tagged as input; the metadata
/// does not distinguish directions).
pub open spec fn spec_argument_type(a: XclbinArgument) -> ArgumentType {
    if a.address_qualifier != 0 {
        ArgumentType::NotRealizedBuffer(a.size, IOMode::Input)
    } else {
        ArgumentType::Passed
    }
}

/// Derives the argument map of a metadata kernel, one entry per slot in
/// slot order.
pub fn get_argument_types(kernel: &XclbinKernel) -> (r: Vec<ArgumentType>)
    requires
        arguments_in_slot_order(kernel.arguments@),
    ensures
        r@.len() == kernel.arguments@.len(),
        forall|i: int|
            0 <= i < r@.len() ==> #[trigger] r@[i] == spec_argument_type(kernel.arguments@[i]),
{
    let mut v: Vec<ArgumentType> = Vec::new();
    let mut i: usize = 0;
    while i < kernel.arguments.len()
        invariant
            i <= kernel.arguments@.len(),
            v@.len() == i,
            forall|j: int|
                0 <= j < i ==> #[trigger] v@[j] == spec_argument_type(kernel.arguments@[j]),
        decreases kernel.arguments@.len() - i,
    {
        let a = &kernel.arguments[i];
        if a.address_qualifier != 0 {
            v.push(ArgumentType::NotRealizedBuffer(a.size, IOMode::Input));
        } else {
            v.push(ArgumentType::Passed);
        }
        i = i + 1;
    }
    v
}

} // verus!

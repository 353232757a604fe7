//! The bitstream-container reader: magic string, section headers, and the
//! build-metadata sections.

use xrt::buffer::IOMode;
use xrt::error::Error;
use xrt::kernel::ArgumentType;
use xrt::xclbin::{
    check_magic, get_argument_types, get_build_metadata, get_section_data, BuildMetadata,
    BuildMetadataContent, DSA, UserRegion, XCLBIN, XclbinArgument, XclbinKernel,
};

/// A minimal container image: magic, section count at its fixed offset,
/// and one section-header record.
fn tiny_image(kind: u32, offset: u64, size: u64) -> Vec<u8> {
    let mut data = vec![0u8; 456 + 40];
    data[0..7].copy_from_slice(b"xclbin2");
    // one section
    data[448..452].copy_from_slice(&1u32.to_le_bytes());
    let s = 456;
    data[s..s + 4].copy_from_slice(&kind.to_le_bytes());
    data[s + 24..s + 32].copy_from_slice(&offset.to_le_bytes());
    data[s + 32..s + 40].copy_from_slice(&size.to_le_bytes());
    data
}

#[test]
fn magic_accepts_and_rejects() {
    let good = tiny_image(1, 0, 0);
    assert!(check_magic(&good).is_ok());

    let mut bad = good.clone();
    bad[0] = b'y';
    match check_magic(&bad) {
        Err(Error::XclbinInvalidMagicString(found)) => {
            assert_eq!(found, "yclbin2");
        },
        _ => panic!("expected the magic-string error"),
    }

    let short = vec![1u8, 2, 3];
    assert!(check_magic(&short).is_err());
}

#[test]
fn section_headers_parse_exactly() {
    let data = tiny_image(14, 0x1000, 0x20);
    let headers = get_section_data(&data).expect("headers");
    assert_eq!(headers.len(), 1);
    assert_eq!(headers[0].kind, 14);
    assert_eq!(headers[0].offset, 0x1000);
    assert_eq!(headers[0].size, 0x20);
}

#[test]
fn truncated_section_table_is_rejected() {
    let mut data = tiny_image(14, 0, 0);
    // Claim four sections while only one record fits.
    data[448..452].copy_from_slice(&4u32.to_le_bytes());
    // The error carries the failing record's own byte range: the second
    // record starts right after the one that fits.
    assert!(matches!(
        get_section_data(&data),
        Err(Error::XclbinByteReadingError(496, 536))
    ));

    let tiny = vec![0u8; 10];
    assert!(get_section_data(&tiny).is_err());
}

#[test]
fn build_metadata_sections_parse_as_json() {
    let json = br#"{"build_metadata":{}}"#;
    let mut data = tiny_image(14, 0, 0);
    let offset = data.len() as u64;
    data.extend_from_slice(json);
    let s = 456;
    data[s + 24..s + 32].copy_from_slice(&offset.to_le_bytes());
    data[s + 32..s + 40].copy_from_slice(&(json.len() as u64).to_le_bytes());

    let headers = get_section_data(&data).expect("headers");
    let parsed = get_build_metadata(&data, &headers);
    assert_eq!(parsed.len(), 1);
    assert!(parsed[0].is_ok());

    // A header of another kind contributes nothing.
    let plain = tiny_image(7, 0, 0);
    let headers = get_section_data(&plain).expect("headers");
    assert_eq!(get_build_metadata(&plain, &headers).len(), 0);

    // Bytes that are not JSON come back as the invalid-content error.
    let mut broken = tiny_image(14, 0, 4);
    broken[0..7].copy_from_slice(b"xclbin2");
    let headers = get_section_data(&broken).expect("headers");
    let parsed = get_build_metadata(&broken, &headers);
    assert_eq!(parsed.len(), 1);
    assert!(matches!(
        parsed[0],
        Err(Error::XclbinInvalidMagicString(_))
    ));
}

fn sample_metadata() -> BuildMetadata {
    BuildMetadata {
        build_metadata: BuildMetadataContent {
            dsa: DSA {
                board_id: String::from("b0"),
                description: String::from("sample"),
                name: String::from("board"),
                vendor: String::from("acme"),
                version_major: String::from("1"),
                version_minor: String::from("0"),
            },
            xclbin: XCLBIN {
                user_regions: vec![UserRegion {
                    base_address: String::from("0x0"),
                    instance_path: String::from("top"),
                    kernels: vec![XclbinKernel {
                        arguments: vec![
                            XclbinArgument {
                                id: 0,
                                name: String::from("count"),
                                arg_type: String::from("unsigned int"),
                                size: 4,
                                address_qualifier: 0,
                            },
                            XclbinArgument {
                                id: 1,
                                name: String::from("out"),
                                arg_type: String::from("unsigned int*"),
                                size: 64,
                                address_qualifier: 1,
                            },
                        ],
                        name: String::from("add"),
                        instances: vec![String::from("add_1")],
                        ports: vec![],
                    }],
                    name: String::from("region"),
                    typ: String::from("PL"),
                }],
            },
        },
    }
}

#[test]
fn metadata_kernel_lookup_and_argument_map() {
    let bm = sample_metadata();
    assert!(bm.get_kernel("missing").is_none());
    let kernel = bm.get_kernel("add").expect("kernel");
    let map = get_argument_types(kernel);
    assert_eq!(map.len(), 2);
    assert!(matches!(map[0], ArgumentType::Passed));
    assert!(matches!(
        map[1],
        ArgumentType::NotRealizedBuffer(64, IOMode::Input)
    ));
}

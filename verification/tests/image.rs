use rkl::image::{
    bundle_dir, determine_image_path, ImageLayout, ImageProbe, ImageType, UtilsError,
};

fn layout(bits: u32) -> ImageLayout {
    ImageLayout {
        config_json: bits & 1 != 0,
        rootfs: bits & 2 != 0,
        index_json: bits & 4 != 0,
        blobs: bits & 8 != 0,
        oci_layout: bits & 16 != 0,
    }
}

#[test]
fn every_layout_is_classified() {
    let mut bits: u32 = 0;
    while bits < 32 {
        let expected = if bits & 3 == 3 {
            Ok(ImageType::Bundle)
        } else if bits & 28 == 28 {
            Ok(ImageType::OCIImage)
        } else {
            Err(UtilsError::InvalidImagePath)
        };
        assert_eq!(determine_image_path(&ImageProbe::Directory(layout(bits))), expected);
        bits += 1;
    }
}

#[test]
fn a_file_is_no_image() {
    let error = determine_image_path(&ImageProbe::NotADirectory).unwrap_err();
    assert_eq!(error, UtilsError::InvalidImagePath);
    assert_eq!(error.message(), "invalid image path");
}

#[test]
fn bundles_go_below_the_data_directory() {
    assert_eq!(bundle_dir("web"), "/var/lib/rkl/web");
}

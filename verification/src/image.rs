//! What kind of image a directory holds.
use vstd::prelude::*;
use vstd::string::*;

verus! {

#[derive(Clone, Copy, Debug, PartialEq, Eq, Structural)]
pub enum ImageType {
    Bundle,
    OCIImage,
}

#[derive(Clone, Copy, Debug, PartialEq, Eq, Structural)]
pub enum UtilsError {
    InvalidImagePath,
}

impl UtilsError {
    /// The text shown for the error.
    pub fn message(&self) -> (r: String)
        ensures
            r@ == "invalid image path"@,
    {
        "invalid image path".to_string()
    }
}

/// The entries of a directory that tell what kind of image it holds.
pub const BUNDLE_CONFIG: &'static str = "config.json";

pub const BUNDLE_ROOTFS: &'static str = "rootfs";

pub const OCI_INDEX: &'static str = "index.json";

pub const OCI_BLOBS: &'static str = "blobs";

pub const OCI_LAYOUT: &'static str = "oci-layout";

/// What is in a directory.
#[derive(Clone, Copy, Debug)]
pub struct ImageLayout {
    /// `BUNDLE_CONFIG` is there.
    pub config_json: bool,
    /// `BUNDLE_ROOTFS` is a directory.
    pub rootfs: bool,
    /// `OCI_INDEX` is there.
    pub index_json: bool,
    /// `OCI_BLOBS` is a directory.
    pub blobs: bool,
    /// `OCI_LAYOUT` is there.
    pub oci_layout: bool,
}

/// What is at a path.
#[derive(Clone, Copy, Debug)]
pub enum ImageProbe {
    NotADirectory,
    Directory(ImageLayout),
}

impl ImageLayout {
    pub open spec fn is_bundle(self) -> bool {
        self.config_json && self.rootfs
    }

    pub open spec fn is_oci_image(self) -> bool {
        self.index_json && self.blobs && self.oci_layout
    }
}

/// The kind of the image at a path. A directory that holds both kinds counts as a bundle.
pub fn determine_image_path(target: &ImageProbe) -> (r: Result<ImageType, UtilsError>)
    ensures
        r == (match target {
            ImageProbe::Directory(layout) => {
                if layout.is_bundle() {
                    Ok(ImageType::Bundle)
                } else if layout.is_oci_image() {
                    Ok(ImageType::OCIImage)
                } else {
                    Err(UtilsError::InvalidImagePath)
                }
            },
            ImageProbe::NotADirectory => Err(UtilsError::InvalidImagePath),
        }),
        r == Ok::<ImageType, UtilsError>(ImageType::Bundle) <==> (
        target matches ImageProbe::Directory(layout) && layout.config_json && layout.rootfs),
        r == Ok::<ImageType, UtilsError>(ImageType::OCIImage) <==> (
        target matches ImageProbe::Directory(layout) && !(layout.config_json && layout.rootfs)
            && layout.index_json && layout.blobs && layout.oci_layout),
        r is Err <==> !(target matches ImageProbe::Directory(layout) && (layout.config_json
            && layout.rootfs || layout.index_json && layout.blobs && layout.oci_layout)),
{
    match target {
        ImageProbe::NotADirectory => Err(UtilsError::InvalidImagePath),
        ImageProbe::Directory(layout) => {
            if layout.config_json && layout.rootfs {
                return Ok(ImageType::Bundle);
            }
            if layout.index_json && layout.blobs && layout.oci_layout {
                return Ok(ImageType::OCIImage);
            }
            Err(UtilsError::InvalidImagePath)
        },
    }
}

/// The directory that the image of the container `name` is unpacked to.
pub fn bundle_dir(name: &str) -> (r: String)
    ensures
        r@ == "/var/lib/rkl/"@ + name@,
{
    "/var/lib/rkl/".to_string().concat(name)
}

/// A bundle has a configuration and a root file system; an image has an index, blobs and a
/// layout file. These are their names.
pub proof fn entries_of_images(layout: ImageLayout)
    ensures
        layout.is_bundle() <==> layout.config_json && layout.rootfs,
        layout.is_oci_image() <==> layout.index_json && layout.blobs && layout.oci_layout,
        BUNDLE_CONFIG@ == "config.json"@ && BUNDLE_ROOTFS@ == "rootfs"@,
        OCI_INDEX@ == "index.json"@ && OCI_BLOBS@ == "blobs"@ && OCI_LAYOUT@ == "oci-layout"@,
{
}

} // verus!

pub mod image_download;
pub mod image_upload;

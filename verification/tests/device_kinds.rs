use scarefire::buffer::GLBuffer;
use scarefire::handle::{AccessType, BufferUsage, GLHandle};
use scarefire::material::GlCommand;
use scarefire::texture::{ImageFormat, TextureData, Texture};

#[test]
fn buffer_usage_enumerants() {
    assert_eq!(BufferUsage::Attribute.to_gl(), 0x8892);
    assert_eq!(BufferUsage::Index.to_gl(), 0x8893);
    assert_eq!(BufferUsage::Uniform.to_gl(), 0x8A11);
    assert_eq!(BufferUsage::Storage.to_gl(), 0x90D2);
}

#[test]
fn access_type_enumerants() {
    assert_eq!(AccessType::WriteOnly.to_gl(), 0x88B9);
    assert_eq!(AccessType::ReadOnly.to_gl(), 0x88B8);
    assert_eq!(AccessType::ReadWrite.to_gl(), 0x88BA);
}

#[test]
fn image_format_enumerants() {
    let gl = ImageFormat::Rgba8SRgb.to_gl();
    assert_eq!(gl.format, 0x1908);
    assert_eq!(gl.internal_format, 0x8C43);
    assert_eq!(gl.component_type, 0x1401);
    let gl = ImageFormat::Depth32Float.to_gl();
    assert_eq!(gl.format, 0x1902);
    assert_eq!(gl.internal_format, 0x8CAC);
    assert_eq!(gl.component_type, 0x1406);
}

#[test]
fn mip_levels_cover_each_halving() {
    assert_eq!(Texture::mip_levels(1, 1), 1);
    assert_eq!(Texture::mip_levels(2, 2), 2);
    assert_eq!(Texture::mip_levels(2, 1), 2);
    assert_eq!(Texture::mip_levels(256, 256), 9);
    assert_eq!(Texture::mip_levels(300, 200), 9);
    assert_eq!(Texture::mip_levels(1024, 1), 11);
    assert_eq!(Texture::mip_levels(4096, 4096), 13);
}

#[test]
fn texture_data_checks_pixel_count() {
    let ok = TextureData::new(2, 3, ImageFormat::Rgba8Unorm, vec![0u8; 24]);
    assert!(ok.is_some());
    let t = ok.unwrap();
    assert_eq!((t.width, t.height), (2, 3));
    let bad = TextureData::new(2, 3, ImageFormat::Rgba8Unorm, vec![0u8; 23]);
    assert!(bad.is_none());
}

#[test]
fn texture_records_its_shape() {
    let t = Texture::new_from_format(GLHandle::new(5), 640, 480, ImageFormat::Rgb8Unorm);
    assert_eq!(t.size(), (640, 480));
    assert_eq!(t.handle.get(), 5);
}

#[test]
fn buffer_reports_sizes_and_bind_commands() {
    let b = GLBuffer::new(GLHandle::new(8), 6, 4);
    assert_eq!(b.size(), 6);
    assert_eq!(b.byte_size(), 24);
    assert_eq!(b.handle().get(), 8);
    assert_eq!(b.bind(BufferUsage::Index), GlCommand::BindBuffer(0x8893, 8));
    assert_eq!(
        b.bind_to(BufferUsage::Uniform, 2),
        GlCommand::BindBufferBase(0x8A11, 2, 8)
    );
}

//! The serializer chunk streams, checked byte for byte.

use it8951::{AreaImgInfo, AreaSerializer, PixelSerializer, Rect};
use it8951::convert_color_to_pixel_iterator;

const BOUNDING_BOX_DEFAULT: Rect = Rect { x: 0, y: 0, width: 10, height: 10 };

fn area_chunks(area: Rect, color: u8, buffer_size: usize) -> AreaSerializer {
    AreaSerializer::new(&area.intersection(&BOUNDING_BOX_DEFAULT), color, buffer_size).unwrap()
}

fn pixel_chunks(area: Rect, colors: Vec<u8>, size: usize) -> PixelSerializer {
    let pixels = convert_color_to_pixel_iterator(&area, &BOUNDING_BOX_DEFAULT, &colors);
    PixelSerializer::new(&area.intersection(&BOUNDING_BOX_DEFAULT), pixels, size).unwrap()
}

#[test]
// single pixel in bounding box at pos 0
fn area_serializer_test_pixel_0() {
    let area = Rect { x: 0, y: 0, width: 1, height: 1 };
    let mut s = area_chunks(area, 0xA, 1024);
    assert_eq!(
        s.next_chunk(),
        Some((
            AreaImgInfo { area_x: 0, area_y: 0, area_w: 1, area_h: 1 },
            vec![0xAA, 0xAA]
        ))
    );
    assert_eq!(s.next_chunk(), None);
}

#[test]
// single pixel in bounding box at pos 1
fn area_serializer_test_pixel_1() {
    let area = Rect { x: 1, y: 1, width: 1, height: 1 };
    let mut s = area_chunks(area, 0xA, 1024);
    assert_eq!(
        s.next_chunk(),
        Some((
            AreaImgInfo { area_x: 1, area_y: 1, area_w: 1, area_h: 1 },
            vec![0xAA, 0xAA]
        ))
    );
    assert_eq!(s.next_chunk(), None);
}

#[test]
// single pixel in bounding box at pos 2
fn area_serializer_test_pixel_2() {
    let area = Rect { x: 2, y: 1, width: 1, height: 1 };
    let mut s = area_chunks(area, 0xA, 1024);
    assert_eq!(
        s.next_chunk(),
        Some((
            AreaImgInfo { area_x: 2, area_y: 1, area_w: 1, area_h: 1 },
            vec![0xAA, 0xAA]
        ))
    );
    assert_eq!(s.next_chunk(), None);
}

#[test]
// single pixel in bounding box at pos 3
fn area_serializer_test_pixel_3() {
    let area = Rect { x: 3, y: 1, width: 1, height: 1 };
    let mut s = area_chunks(area, 0xA, 1024);
    assert_eq!(
        s.next_chunk(),
        Some((
            AreaImgInfo { area_x: 3, area_y: 1, area_w: 1, area_h: 1 },
            vec![0xAA, 0xAA]
        ))
    );
    assert_eq!(s.next_chunk(), None);
}

#[test]
// 4 pixels in a row, aligned
fn area_serializer_test_pixel_single_row_packed() {
    let area = Rect { x: 4, y: 1, width: 4, height: 1 };
    let mut s = area_chunks(area, 0xA, 1024);
    assert_eq!(
        s.next_chunk(),
        Some((
            AreaImgInfo { area_x: 4, area_y: 1, area_w: 4, area_h: 1 },
            vec![0xAA, 0xAA]
        ))
    );
    assert_eq!(s.next_chunk(), None);
}

#[test]
// 3 pixels in a row, not aligned
fn area_serializer_test_pixel_single_row() {
    let area = Rect { x: 3, y: 1, width: 3, height: 1 };
    let mut s = area_chunks(area, 0xA, 1024);
    assert_eq!(
        s.next_chunk(),
        Some((
            AreaImgInfo { area_x: 3, area_y: 1, area_w: 3, area_h: 1 },
            vec![0xAA, 0xAA, 0xAA, 0xAA]
        ))
    );
    assert_eq!(s.next_chunk(), None);
}

#[test]
// two rows of pixels, aligned
fn area_serializer_test_pixel_rows_packed() {
    let area = Rect { x: 4, y: 1, width: 4, height: 2 };
    let mut s = area_chunks(area, 0xA, 2);
    assert_eq!(
        s.next_chunk(),
        Some((
            AreaImgInfo { area_x: 4, area_y: 1, area_w: 4, area_h: 1 },
            vec![0xAA, 0xAA]
        ))
    );
    assert_eq!(
        s.next_chunk(),
        Some((
            AreaImgInfo { area_x: 4, area_y: 2, area_w: 4, area_h: 1 },
            vec![0xAA, 0xAA]
        ))
    );
    assert_eq!(s.next_chunk(), None);
}

#[test]
// two rows of pixels, not aligned
fn area_serializer_test_pixel_rows() {
    let area = Rect { x: 3, y: 1, width: 3, height: 2 };
    let mut s = area_chunks(area, 0xA, 4);
    assert_eq!(
        s.next_chunk(),
        Some((
            AreaImgInfo { area_x: 3, area_y: 1, area_w: 3, area_h: 1 },
            vec![0xAA, 0xAA, 0xAA, 0xAA]
        ))
    );
    assert_eq!(
        s.next_chunk(),
        Some((
            AreaImgInfo { area_x: 3, area_y: 2, area_w: 3, area_h: 1 },
            vec![0xAA, 0xAA, 0xAA, 0xAA]
        ))
    );
    assert_eq!(s.next_chunk(), None);
}

#[test]
// two rows of pixels, aligned
fn area_serializer_test_pixel_rows_packed_multirow() {
    let area = Rect { x: 4, y: 1, width: 4, height: 2 };
    let mut s = area_chunks(area, 0xA, 1024);
    assert_eq!(
        s.next_chunk(),
        Some((
            AreaImgInfo { area_x: 4, area_y: 1, area_w: 4, area_h: 2 },
            vec![0xAA, 0xAA, 0xAA, 0xAA]
        ))
    );
    assert_eq!(s.next_chunk(), None);
}

#[test]
// two rows of pixels, not aligned
fn area_serializer_test_pixel_rows_multirow() {
    let area = Rect { x: 3, y: 1, width: 3, height: 2 };
    let mut s = area_chunks(area, 0xA, 1024);
    assert_eq!(
        s.next_chunk(),
        Some((
            AreaImgInfo { area_x: 3, area_y: 1, area_w: 3, area_h: 2 },
            vec![0xAA, 0xAA, 0xAA, 0xAA, 0xAA, 0xAA, 0xAA, 0xAA]
        ))
    );
    assert_eq!(s.next_chunk(), None);
}

#[test]
// two rows of pixels, not aligned, top left pixels are out of drawable area
fn area_serializer_test_pixel_non_drawable_top_left() {
    let area = Rect { x: -1, y: -1, width: 3, height: 2 };
    let mut s = area_chunks(area, 0xA, 1024);
    assert_eq!(
        s.next_chunk(),
        Some((
            AreaImgInfo { area_x: 0, area_y: 0, area_w: 2, area_h: 1 },
            vec![0xAA, 0xAA]
        ))
    );
    assert_eq!(s.next_chunk(), None);
}

#[test]
// single pixel in bounding box at pos 0
fn pixel_serializer_test_pixel_0() {
    let area = Rect { x: 0, y: 0, width: 1, height: 1 };
    let mut s = pixel_chunks(area, vec![0xF], 1024);
    assert_eq!(
        s.next_chunk(),
        Some((
            AreaImgInfo { area_x: 0, area_y: 0, area_w: 1, area_h: 1 },
            vec![0x00, 0x0F]
        ))
    );
    assert_eq!(s.next_chunk(), None);
}

#[test]
// single pixel in bounding box at pos 1
fn pixel_serializer_test_pixel_1() {
    let area = Rect { x: 1, y: 1, width: 1, height: 1 };
    let mut s = pixel_chunks(area, vec![0x1], 1024);
    assert_eq!(
        s.next_chunk(),
        Some((
            AreaImgInfo { area_x: 1, area_y: 1, area_w: 1, area_h: 1 },
            vec![0x00, 0x10]
        ))
    );
    assert_eq!(s.next_chunk(), None);
}

#[test]
// single pixel in bounding box at pos 2
fn pixel_serializer_test_pixel_2() {
    let area = Rect { x: 2, y: 1, width: 1, height: 1 };
    let mut s = pixel_chunks(area, vec![0x4], 1024);
    assert_eq!(
        s.next_chunk(),
        Some((
            AreaImgInfo { area_x: 2, area_y: 1, area_w: 1, area_h: 1 },
            vec![0x04, 0x00]
        ))
    );
    assert_eq!(s.next_chunk(), None);
}

#[test]
// single pixel in bounding box at pos 3
fn pixel_serializer_test_pixel_3() {
    let area = Rect { x: 3, y: 1, width: 1, height: 1 };
    let mut s = pixel_chunks(area, vec![0xC], 1024);
    assert_eq!(
        s.next_chunk(),
        Some((
            AreaImgInfo { area_x: 3, area_y: 1, area_w: 1, area_h: 1 },
            vec![0xC0, 0x00]
        ))
    );
    assert_eq!(s.next_chunk(), None);
}

#[test]
// 4 pixels in a row, aligned
fn pixel_serializer_test_pixel_single_row_packed() {
    let area = Rect { x: 4, y: 1, width: 4, height: 1 };
    let mut s = pixel_chunks(area, vec![0xA, 0xB, 0xC, 0xD], 1024);
    assert_eq!(
        s.next_chunk(),
        Some((
            AreaImgInfo { area_x: 4, area_y: 1, area_w: 4, area_h: 1 },
            vec![0xDC, 0xBA]
        ))
    );
    assert_eq!(s.next_chunk(), None);
}

#[test]
// 3 pixels in a row, not aligned
fn pixel_serializer_test_pixel_single_row() {
    let area = Rect { x: 3, y: 1, width: 3, height: 1 };
    let mut s = pixel_chunks(area, vec![0xC, 0xD, 0xE], 1024);
    assert_eq!(
        s.next_chunk(),
        Some((
            AreaImgInfo { area_x: 3, area_y: 1, area_w: 3, area_h: 1 },
            vec![0xC0, 0x00, 0x00, 0xED]
        ))
    );
    assert_eq!(s.next_chunk(), None);
}

#[test]
// two rows of pixels, aligned
fn pixel_serializer_test_pixel_rows_packed() {
    let area = Rect { x: 4, y: 1, width: 4, height: 2 };
    let mut s = pixel_chunks(area, vec![0xA, 0xB, 0xC, 0xD, 0x1, 0x2, 0x3, 0x4], 2);
    assert_eq!(
        s.next_chunk(),
        Some((
            AreaImgInfo { area_x: 4, area_y: 1, area_w: 4, area_h: 1 },
            vec![0xDC, 0xBA]
        ))
    );
    assert_eq!(
        s.next_chunk(),
        Some((
            AreaImgInfo { area_x: 4, area_y: 2, area_w: 4, area_h: 1 },
            vec![0x43, 0x21]
        ))
    );
    assert_eq!(s.next_chunk(), None);
}

#[test]
// two rows of pixels, not aligned
fn pixel_serializer_test_pixel_rows() {
    let area = Rect { x: 3, y: 1, width: 3, height: 2 };
    let mut s = pixel_chunks(area, vec![0xC, 0xD, 0xE, 0x1, 0x2, 0x3], 4);
    assert_eq!(
        s.next_chunk(),
        Some((
            AreaImgInfo { area_x: 3, area_y: 1, area_w: 3, area_h: 1 },
            vec![0xC0, 0x00, 0x00, 0xED]
        ))
    );
    assert_eq!(
        s.next_chunk(),
        Some((
            AreaImgInfo { area_x: 3, area_y: 2, area_w: 3, area_h: 1 },
            vec![0x10, 0x00, 0x00, 0x32]
        ))
    );
    assert_eq!(s.next_chunk(), None);
}

#[test]
// two rows of pixels, aligned
fn pixel_serializer_test_pixel_rows_packed_multirow() {
    let area = Rect { x: 4, y: 1, width: 4, height: 2 };
    let mut s = pixel_chunks(area, vec![0xA, 0xB, 0xC, 0xD, 0x1, 0x2, 0x3, 0x4], 1024);
    assert_eq!(
        s.next_chunk(),
        Some((
            AreaImgInfo { area_x: 4, area_y: 1, area_w: 4, area_h: 2 },
            vec![0xDC, 0xBA, 0x43, 0x21]
        ))
    );
    assert_eq!(s.next_chunk(), None);
}

#[test]
// two rows of pixels, not aligned
fn pixel_serializer_test_pixel_rows_multirow() {
    let area = Rect { x: 3, y: 1, width: 3, height: 2 };
    let mut s = pixel_chunks(area, vec![0xC, 0xD, 0xE, 0x1, 0x2, 0x3], 1024);
    assert_eq!(
        s.next_chunk(),
        Some((
            AreaImgInfo { area_x: 3, area_y: 1, area_w: 3, area_h: 2 },
            vec![0xC0, 0x00, 0x00, 0xED, 0x10, 0x00, 0x00, 0x32]
        ))
    );
    assert_eq!(s.next_chunk(), None);
}

#[test]
// two rows of pixels, not aligned, top left pixels are out of drawable area
fn pixel_serializer_test_pixel_non_drawable_top_left() {
    let area = Rect { x: -1, y: -1, width: 3, height: 2 };
    let mut s = pixel_chunks(area, vec![0xC, 0xD, 0xE, 0x1, 0x2, 0x3], 1024);
    assert_eq!(
        s.next_chunk(),
        Some((
            AreaImgInfo { area_x: 0, area_y: 0, area_w: 2, area_h: 1 },
            vec![0x00, 0x32]
        ))
    );
    assert_eq!(s.next_chunk(), None);
}

#[test]
// the pixel source stops mid-row: the last chunk narrows to the pixels
// actually supplied
fn pixel_serializer_partial_last_row() {
    let area = Rect { x: 0, y: 0, width: 4, height: 2 };
    // 6 colors for 8 points: one full row, then half a row
    let mut s = pixel_chunks(area, vec![0x1, 0x2, 0x3, 0x4, 0x5, 0x6], 1024);
    assert_eq!(
        s.next_chunk(),
        Some((
            AreaImgInfo { area_x: 0, area_y: 0, area_w: 4, area_h: 1 },
            vec![0x43, 0x21]
        ))
    );
    assert_eq!(
        s.next_chunk(),
        Some((
            AreaImgInfo { area_x: 0, area_y: 1, area_w: 2, area_h: 1 },
            vec![0x00, 0x65]
        ))
    );
    assert_eq!(s.next_chunk(), None);
}

#[test]
// a staging buffer that cannot hold one packed row is a configuration error
fn serializer_insufficient_buffer_capacity() {
    let area = Rect { x: 0, y: 0, width: 8, height: 2 };
    assert_eq!(
        AreaSerializer::new(&area, 0xA, 2).unwrap_err(),
        it8951::Error::InsufficientBufferCapacity
    );
    let pixels = convert_color_to_pixel_iterator(&area, &BOUNDING_BOX_DEFAULT, &vec![0u8; 16]);
    assert_eq!(
        PixelSerializer::new(&area, pixels, 2).unwrap_err(),
        it8951::Error::InsufficientBufferCapacity
    );
}

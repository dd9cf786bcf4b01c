//! Wire framing, the power state machine, and the driver's full bus traces,
//! checked against a recording transport.

use it8951::interface::{Error as InterfaceError, IT8951Interface, IT8951SPIInterface, Transport};
use it8951::{AreaImgInfo, BusRec, Config, Error, IT8951, SpyTransport, WaveformMode};
use it8951::memory_converter_settings::{
    MemoryConverterBitPerPixel, MemoryConverterEndianness, MemoryConverterRotation,
    MemoryConverterSetting,
};

fn test_config() -> Config {
    Config { timeout_display_engine: 16, timeout_interface: 16, max_buffer_size: 1024 }
}

/// A 44-byte reply for the device info exchange: 800 by 600 panel, frame
/// buffer at 0x0011_9F00, firmware "v1", LUT "M841".
fn dev_info_reply() -> Vec<u8> {
    let words: [u16; 20] = [
        800, 600, 0x9F00, 0x0011, // width, height, address low, address high
        0x3176, 0, 0, 0, 0, 0, 0, 0, // "v1"
        0x384D, 0x3134, 0, 0, 0, 0, 0, 0, // "M841"
    ];
    let mut reply = vec![0u8; 4];
    for w in words.iter() {
        reply.push((w >> 8) as u8);
        reply.push(*w as u8);
    }
    reply
}

/// A 6-byte reply for a single word read.
fn word_reply(value: u16) -> Vec<u8> {
    vec![0, 0, 0, 0, (value >> 8) as u8, value as u8]
}

/// An initialized driver whose spy was scripted with the device info reply,
/// a VCOM reply of 2500, and then the given extra replies.
fn active_driver(extra_replies: Vec<Vec<u8>>) -> IT8951<IT8951SPIInterface<SpyTransport>> {
    let mut replies = vec![dev_info_reply(), word_reply(2500)];
    replies.extend(extra_replies);
    let spy = SpyTransport::with_replies(replies);
    let mut driver = IT8951::new(IT8951SPIInterface::new(spy), test_config());
    driver.init(2500).unwrap();
    driver
}

fn recorded(driver: IT8951<IT8951SPIInterface<SpyTransport>>) -> Vec<BusRec> {
    driver.into_interface().into_transport().log
}

#[test]
// the command frame is the 0x6000 prefix and the big-endian opcode
fn write_command_frame() {
    let mut codec = IT8951SPIInterface::new(SpyTransport::new());
    codec.write_command(0x0302).unwrap();
    let log = codec.into_transport().log;
    assert_eq!(log, vec![BusRec::Write(vec![0x60, 0x00, 0x03, 0x02])]);
}

#[test]
// the data frame is the 0x0000 prefix and the big-endian value
fn write_word_frame() {
    let mut codec = IT8951SPIInterface::new(SpyTransport::new());
    codec.write_data(0xABCD).unwrap();
    let log = codec.into_transport().log;
    assert_eq!(log, vec![BusRec::Write(vec![0x00, 0x00, 0xAB, 0xCD])]);
}

#[test]
// a block write sends the data prefix once, then the raw payload
fn write_block_frame() {
    let mut codec = IT8951SPIInterface::new(SpyTransport::new());
    codec.write_multi_data(&[0x12, 0x34, 0x56, 0x78]).unwrap();
    let log = codec.into_transport().log;
    assert_eq!(log, vec![BusRec::Write(vec![0x00, 0x00, 0x12, 0x34, 0x56, 0x78])]);
}

#[test]
// an odd payload is rejected before any bus traffic
fn write_block_alignment() {
    let mut codec = IT8951SPIInterface::new(SpyTransport::new());
    assert_eq!(codec.write_multi_data(&[0x12, 0x34, 0x56]), Err(InterfaceError::BufferAlignment));
    assert_eq!(codec.into_transport().log.len(), 0);
}

#[test]
// a word read exchanges 6 bytes (prefix, two dummies, the result) and
// decodes the last two big-endian
fn read_word_frame() {
    let mut codec = IT8951SPIInterface::new(SpyTransport::with_replies(vec![word_reply(0xBEEF)]));
    assert_eq!(codec.read_data().unwrap(), 0xBEEF);
    let log = codec.into_transport().log;
    assert_eq!(log, vec![BusRec::Exchange(vec![0x10, 0x00, 0x00, 0x00, 0x00, 0x00])]);
}

#[test]
// a block read of n words exchanges 2n + 4 bytes
fn read_block_frame() {
    let mut codec = IT8951SPIInterface::new(SpyTransport::with_replies(vec![vec![
        0, 0, 0, 0, 0x12, 0x34, 0x56, 0x78,
    ]]));
    let words = codec.read_multi_data(2).unwrap();
    assert_eq!(words, vec![0x1234, 0x5678]);
    let log = codec.into_transport().log;
    assert_eq!(log, vec![BusRec::Exchange(vec![0x10, 0, 0, 0, 0, 0, 0, 0])]);
}

#[test]
// a command with arguments is the command frame then one data frame each
fn command_with_args_frames() {
    let mut codec = IT8951SPIInterface::new(SpyTransport::new());
    codec.write_command_with_args(0x0011, &[0x0004, 0x0001]).unwrap();
    let log = codec.into_transport().log;
    assert_eq!(
        log,
        vec![
            BusRec::Write(vec![0x60, 0x00, 0x00, 0x11]),
            BusRec::Write(vec![0x00, 0x00, 0x00, 0x04]),
            BusRec::Write(vec![0x00, 0x00, 0x00, 0x01]),
        ]
    );
}

#[test]
// the reset pulse drives the line high, low, high
fn reset_line_sequence() {
    let mut codec = IT8951SPIInterface::new(SpyTransport::new());
    codec.reset().unwrap();
    let log = codec.into_transport().log;
    assert_eq!(
        log,
        vec![
            BusRec::ResetLevel(true),
            BusRec::ResetLevel(false),
            BusRec::ResetLevel(true),
        ]
    );
}

#[test]
// a never-asserted ready line exhausts the busy budget
fn busy_timeout() {
    let mut codec = IT8951SPIInterface::new(SpyTransport::never_ready());
    codec.set_busy_timeout(10);
    assert_eq!(codec.write_command(0x0001), Err(InterfaceError::BusyTimeout));
    assert_eq!(codec.into_transport().log.len(), 0);
}

#[test]
// init pulses reset, runs the system, queries the device info, enables
// packed writes, and reads VCOM; a matching VCOM value is not rewritten
fn init_trace_vcom_matches() {
    let driver = active_driver(vec![]);
    let info = driver.get_dev_info();
    assert_eq!(info.panel_width, 800);
    assert_eq!(info.panel_height, 600);
    assert_eq!(info.memory_address, 0x0011_9F00);
    assert_eq!(info.firmware_version, b"v1".to_vec());
    assert_eq!(info.lut_version, b"M841".to_vec());
    let log = recorded(driver);
    let mut dev_info_tx = vec![0x10u8, 0x00];
    dev_info_tx.extend(vec![0u8; 42]);
    assert_eq!(
        log,
        vec![
            BusRec::ResetLevel(true),
            BusRec::ResetLevel(false),
            BusRec::ResetLevel(true),
            BusRec::Write(vec![0x60, 0x00, 0x00, 0x01]), // SYS_RUN
            BusRec::Write(vec![0x60, 0x00, 0x03, 0x02]), // GET_DEV_INFO
            BusRec::Exchange(dev_info_tx),
            BusRec::Write(vec![0x60, 0x00, 0x00, 0x11]), // REG_WR
            BusRec::Write(vec![0x00, 0x00, 0x00, 0x04]), // I80CPCR
            BusRec::Write(vec![0x00, 0x00, 0x00, 0x01]), // pack write enable
            BusRec::Write(vec![0x60, 0x00, 0x00, 0x39]), // VCOM
            BusRec::Write(vec![0x00, 0x00, 0x00, 0x00]), // read sub-command
            BusRec::Exchange(vec![0x10, 0, 0, 0, 0, 0]),
        ]
    );
}

#[test]
// a differing VCOM value is written back
fn init_trace_vcom_differs() {
    let spy = SpyTransport::with_replies(vec![dev_info_reply(), word_reply(2000)]);
    let mut driver = IT8951::new(IT8951SPIInterface::new(spy), test_config());
    driver.init(2500).unwrap();
    let log = recorded(driver);
    assert_eq!(
        &log[log.len() - 3..],
        &[
            BusRec::Write(vec![0x60, 0x00, 0x00, 0x39]), // VCOM
            BusRec::Write(vec![0x00, 0x00, 0x00, 0x01]), // write sub-command
            BusRec::Write(vec![0x00, 0x00, 0x09, 0xC4]), // 2500
        ]
    );
}

#[test]
// display is rejected before initialization, with no bus traffic at all
fn display_uninitialized_no_traffic() {
    let spy = SpyTransport::new();
    let mut driver = IT8951::new(IT8951SPIInterface::new(spy), test_config());
    assert_eq!(driver.display(WaveformMode::Init), Err(Error::NotInitialized));
    assert_eq!(recorded(driver).len(), 0);
}

#[test]
// display is rejected in a power-down state, with no further bus traffic
fn display_power_down_no_traffic() {
    let mut driver = active_driver(vec![]);
    driver.sleep().unwrap();
    let before = driver.interface.transport.log.len();
    assert_eq!(driver.display(WaveformMode::GL16), Err(Error::NotInitialized));
    assert_eq!(driver.display_area(
        &AreaImgInfo { area_x: 0, area_y: 0, area_w: 1, area_h: 1 },
        WaveformMode::GL16,
    ), Err(Error::NotInitialized));
    assert_eq!(driver.fill_solid(&it8951::Rect { x: 0, y: 0, width: 1, height: 1 }, 0xF),
        Err(Error::NotInitialized));
    let log = recorded(driver);
    assert_eq!(log.len(), before);
    // the last transaction is the SLEEP command itself
    assert_eq!(log[log.len() - 1], BusRec::Write(vec![0x60, 0x00, 0x00, 0x03]));
}

#[test]
// waking from power-down issues SYS_RUN and allows drawing again
fn wake_after_standby() {
    let mut driver = active_driver(vec![word_reply(0)]);
    driver.standby().unwrap();
    driver.sys_run().unwrap();
    driver.display(WaveformMode::Init).unwrap();
    let log = recorded(driver);
    // STANDBY, SYS_RUN, then the display poll and command with its args
    let tail = &log[log.len() - 11..];
    assert_eq!(tail[0], BusRec::Write(vec![0x60, 0x00, 0x00, 0x02])); // STANDBY
    assert_eq!(tail[1], BusRec::Write(vec![0x60, 0x00, 0x00, 0x01])); // SYS_RUN
    assert_eq!(tail[2], BusRec::Write(vec![0x60, 0x00, 0x00, 0x10])); // REG_RD
    assert_eq!(tail[3], BusRec::Write(vec![0x00, 0x00, 0x12, 0x24])); // LUTAFSR
    assert_eq!(tail[4], BusRec::Exchange(vec![0x10, 0, 0, 0, 0, 0]));
    // DPY_AREA with the full 800x600 panel and mode 0
    assert_eq!(tail[5], BusRec::Write(vec![0x60, 0x00, 0x00, 0x34]));
    assert_eq!(tail[6], BusRec::Write(vec![0x00, 0x00, 0x00, 0x00])); // x = 0
    assert_eq!(tail[7], BusRec::Write(vec![0x00, 0x00, 0x00, 0x00])); // y = 0
    assert_eq!(tail[8], BusRec::Write(vec![0x00, 0x00, 0x03, 0x20])); // w = 800
    assert_eq!(tail[9], BusRec::Write(vec![0x00, 0x00, 0x02, 0x58])); // h = 600
    assert_eq!(tail[10], BusRec::Write(vec![0x00, 0x00, 0x00, 0x00])); // Init
}

#[test]
// a display engine that stays busy past the budget times out after exactly
// budget + 1 polls, and no display command goes out
fn display_engine_timeout() {
    // every LUTAFSR poll answers nonzero; budget of 16 extra polls
    let busy_replies: Vec<Vec<u8>> = (0..20).map(|_| word_reply(1)).collect();
    let mut driver = active_driver(busy_replies);
    let before = driver.interface.transport.log.len();
    assert_eq!(driver.display(WaveformMode::Init), Err(Error::DisplayEngineTimeout));
    let log = recorded(driver);
    // 17 polls of 3 transactions each (REG_RD command, address, read), and
    // nothing else
    assert_eq!(log.len() - before, 3 * 17);
    assert_eq!(log[log.len() - 1], BusRec::Exchange(vec![0x10, 0, 0, 0, 0, 0]));
}

#[test]
// a single-pixel fill loads one chunk with the exact load command sequence
fn fill_solid_trace() {
    let mut driver = active_driver(vec![]);
    let before = driver.interface.transport.log.len();
    driver.fill_solid(&it8951::Rect { x: 0, y: 0, width: 1, height: 1 }, 0xA).unwrap();
    let log = recorded(driver);
    assert_eq!(
        &log[before..],
        &[
            BusRec::Write(vec![0x60, 0x00, 0x00, 0x11]), // REG_WR
            BusRec::Write(vec![0x00, 0x00, 0x02, 0x0A]), // LISAR + 2
            BusRec::Write(vec![0x00, 0x00, 0x00, 0x11]), // address high half
            BusRec::Write(vec![0x60, 0x00, 0x00, 0x11]), // REG_WR
            BusRec::Write(vec![0x00, 0x00, 0x02, 0x08]), // LISAR
            BusRec::Write(vec![0x00, 0x00, 0x9F, 0x00]), // address low half
            BusRec::Write(vec![0x60, 0x00, 0x00, 0x21]), // LD_IMG_AREA
            BusRec::Write(vec![0x00, 0x00, 0x00, 0x20]), // little endian, 4 bpp
            BusRec::Write(vec![0x00, 0x00, 0x00, 0x00]), // x = 0
            BusRec::Write(vec![0x00, 0x00, 0x00, 0x00]), // y = 0
            BusRec::Write(vec![0x00, 0x00, 0x00, 0x01]), // w = 1
            BusRec::Write(vec![0x00, 0x00, 0x00, 0x01]), // h = 1
            BusRec::Write(vec![0x00, 0x00, 0xAA, 0xAA]), // one word of fill
            BusRec::Write(vec![0x60, 0x00, 0x00, 0x22]), // LD_IMG_END
        ]
    );
}

#[test]
// an out-of-panel fill is clipped away entirely and issues nothing
fn fill_solid_clipped_out() {
    let mut driver = active_driver(vec![]);
    let before = driver.interface.transport.log.len();
    driver.fill_solid(&it8951::Rect { x: -20, y: -20, width: 5, height: 5 }, 0xA).unwrap();
    assert_eq!(recorded(driver).len(), before);
}

#[test]
// a fill whose row exceeds the staging buffer fails with the capacity error
fn fill_solid_capacity_error() {
    let spy = SpyTransport::with_replies(vec![dev_info_reply(), word_reply(2500)]);
    let config = Config { timeout_display_engine: 16, timeout_interface: 16, max_buffer_size: 2 };
    let mut driver = IT8951::new(IT8951SPIInterface::new(spy), config);
    driver.init(2500).unwrap();
    let before = driver.interface.transport.log.len();
    assert_eq!(
        driver.fill_solid(&it8951::Rect { x: 0, y: 0, width: 100, height: 1 }, 0xA),
        Err(Error::InsufficientBufferCapacity)
    );
    assert_eq!(recorded(driver).len(), before);
}

#[test]
// draw_iter loads each in-panel pixel as its enclosing word, dropping the
// out-of-panel ones
fn draw_iter_trace() {
    let mut driver = active_driver(vec![]);
    let before = driver.interface.transport.log.len();
    driver.draw_iter(&vec![(2, 1, 0x4), (-3, 0, 0xF), (900, 0, 0xF)]).unwrap();
    let log = recorded(driver);
    let tail = &log[before..];
    // one load sequence only: the two out-of-panel pixels are dropped
    assert_eq!(tail.len(), 14);
    assert_eq!(tail[8], BusRec::Write(vec![0x00, 0x00, 0x00, 0x02])); // x = 2
    assert_eq!(tail[9], BusRec::Write(vec![0x00, 0x00, 0x00, 0x01])); // y = 1
    assert_eq!(tail[12], BusRec::Write(vec![0x00, 0x00, 0x04, 0x00])); // pixel word
}

#[test]
// the memory burst write frames address, length and payload
fn memory_burst_write_trace() {
    let mut driver = active_driver(vec![]);
    let before = driver.interface.transport.log.len();
    driver.memory_burst_write(0x0001_0002, &[0xCA, 0xFE]).unwrap();
    let log = recorded(driver);
    assert_eq!(
        &log[before..],
        &[
            BusRec::Write(vec![0x60, 0x00, 0x00, 0x14]), // MEM_BST_WR
            BusRec::Write(vec![0x00, 0x00, 0x00, 0x02]), // address low
            BusRec::Write(vec![0x00, 0x00, 0x00, 0x01]), // address high
            BusRec::Write(vec![0x00, 0x00, 0x00, 0x02]), // length low
            BusRec::Write(vec![0x00, 0x00, 0x00, 0x00]), // length high
            BusRec::Write(vec![0x00, 0x00, 0xCA, 0xFE]), // payload
            BusRec::Write(vec![0x60, 0x00, 0x00, 0x15]), // MEM_BST_END
        ]
    );
}

#[test]
// the memory burst read triggers, starts, reads and ends
fn memory_burst_read_trace() {
    let mut driver = active_driver(vec![vec![0, 0, 0, 0, 0xDE, 0xAD, 0xBE, 0xEF]]);
    let before = driver.interface.transport.log.len();
    let words = driver.memory_burst_read(0x0001_0002, 2).unwrap();
    assert_eq!(words, vec![0xDEAD, 0xBEEF]);
    let log = recorded(driver);
    assert_eq!(
        &log[before..],
        &[
            BusRec::Write(vec![0x60, 0x00, 0x00, 0x12]), // MEM_BST_RD_T
            BusRec::Write(vec![0x00, 0x00, 0x00, 0x02]), // address low
            BusRec::Write(vec![0x00, 0x00, 0x00, 0x01]), // address high
            BusRec::Write(vec![0x00, 0x00, 0x00, 0x02]), // length low
            BusRec::Write(vec![0x00, 0x00, 0x00, 0x00]), // length high
            BusRec::Write(vec![0x60, 0x00, 0x00, 0x13]), // MEM_BST_RD_S
            BusRec::Exchange(vec![0x10, 0, 0, 0, 0, 0, 0, 0]),
            BusRec::Write(vec![0x60, 0x00, 0x00, 0x15]), // MEM_BST_END
        ]
    );
}

#[test]
// under 90-degree rotation the reported size swaps and a displayed area is
// mapped into physical panel coordinates
fn rotated_display_area() {
    let spy = SpyTransport::with_replies(vec![dev_info_reply(), word_reply(2500), word_reply(0)]);
    let mcs = MemoryConverterSetting {
        endianness: MemoryConverterEndianness::LittleEndian,
        bit_per_pixel: MemoryConverterBitPerPixel::BitsPerPixel4,
        rotation: MemoryConverterRotation::Rotate90,
    };
    let mut driver = IT8951::new_with_mcs(IT8951SPIInterface::new(spy), test_config(), mcs);
    driver.init(2500).unwrap();
    // logical space is 600 wide, 800 tall
    let before = driver.interface.transport.log.len();
    driver.display_area(
        &AreaImgInfo { area_x: 10, area_y: 20, area_w: 30, area_h: 40 },
        WaveformMode::GL16,
    ).unwrap();
    let log = recorded(driver);
    let tail = &log[before..];
    // one poll, then DPY_AREA with (20, 600 - 30 - 10, 40, 30) and mode 3
    assert_eq!(tail.len(), 9);
    assert_eq!(tail[3], BusRec::Write(vec![0x60, 0x00, 0x00, 0x34]));
    assert_eq!(tail[4], BusRec::Write(vec![0x00, 0x00, 0x00, 20]));
    assert_eq!(tail[5], BusRec::Write(vec![0x00, 0x00, 0x02, 0x30])); // 560
    assert_eq!(tail[6], BusRec::Write(vec![0x00, 0x00, 0x00, 40]));
    assert_eq!(tail[7], BusRec::Write(vec![0x00, 0x00, 0x00, 30]));
    assert_eq!(tail[8], BusRec::Write(vec![0x00, 0x00, 0x00, 0x03]));
}

#[test]
// applying the 90-degree mapping four times returns the original rectangle
fn rotation_composes_to_identity() {
    let spy = SpyTransport::with_replies(vec![dev_info_reply(), word_reply(2500)]);
    let mcs = MemoryConverterSetting {
        endianness: MemoryConverterEndianness::LittleEndian,
        bit_per_pixel: MemoryConverterBitPerPixel::BitsPerPixel4,
        rotation: MemoryConverterRotation::Rotate90,
    };
    let mut driver = IT8951::new_with_mcs(IT8951SPIInterface::new(spy), test_config(), mcs);
    driver.init(2500).unwrap();
    let start = AreaImgInfo { area_x: 10, area_y: 20, area_w: 30, area_h: 40 };
    let once = driver.rotate_area_info(&start);
    assert_eq!(once, AreaImgInfo { area_x: 20, area_y: 560, area_w: 40, area_h: 30 });
    let four = driver.rotate_area_info(
        &driver.rotate_area_info(&driver.rotate_area_info(&once)),
    );
    assert_eq!(four, start);
}

#[test]
// a transport whose ready line drops dead surfaces the busy timeout through
// the driver
fn driver_busy_timeout() {
    let mut driver = active_driver(vec![]);
    driver.interface.transport.ready = false;
    assert_eq!(driver.sleep(), Err(Error::Interface(InterfaceError::BusyTimeout)));
}

#[test]
// a full-frame load sets the target address, issues LD_IMG with the format
// word, streams the payload, and ends the load
fn load_image_trace() {
    let mut driver = active_driver(vec![]);
    let before = driver.interface.transport.log.len();
    driver
        .load_image(0x0011_9F00, MemoryConverterSetting::default(), &[0x12, 0x34])
        .unwrap();
    let log = recorded(driver);
    assert_eq!(
        &log[before..],
        &[
            BusRec::Write(vec![0x60, 0x00, 0x00, 0x11]), // REG_WR
            BusRec::Write(vec![0x00, 0x00, 0x02, 0x0A]), // LISAR + 2
            BusRec::Write(vec![0x00, 0x00, 0x00, 0x11]), // address high half
            BusRec::Write(vec![0x60, 0x00, 0x00, 0x11]), // REG_WR
            BusRec::Write(vec![0x00, 0x00, 0x02, 0x08]), // LISAR
            BusRec::Write(vec![0x00, 0x00, 0x9F, 0x00]), // address low half
            BusRec::Write(vec![0x60, 0x00, 0x00, 0x20]), // LD_IMG
            BusRec::Write(vec![0x00, 0x00, 0x00, 0x20]), // format word
            BusRec::Write(vec![0x00, 0x00, 0x12, 0x34]), // payload
            BusRec::Write(vec![0x60, 0x00, 0x00, 0x22]), // LD_IMG_END
        ]
    );
}

#[test]
// the buffered display command appends the frame buffer address halves
fn display_area_buf_trace() {
    let mut driver = active_driver(vec![word_reply(0)]);
    let before = driver.interface.transport.log.len();
    driver
        .display_area_buf(
            &AreaImgInfo { area_x: 8, area_y: 4, area_w: 16, area_h: 2 },
            WaveformMode::A2,
            0x0011_9F00,
        )
        .unwrap();
    let log = recorded(driver);
    let tail = &log[before..];
    // one poll (3 transactions), then the command and its 7 arguments
    assert_eq!(tail.len(), 11);
    assert_eq!(tail[3], BusRec::Write(vec![0x60, 0x00, 0x00, 0x37])); // DPY_BUF_AREA
    assert_eq!(tail[4], BusRec::Write(vec![0x00, 0x00, 0x00, 0x08]));
    assert_eq!(tail[5], BusRec::Write(vec![0x00, 0x00, 0x00, 0x04]));
    assert_eq!(tail[6], BusRec::Write(vec![0x00, 0x00, 0x00, 0x10]));
    assert_eq!(tail[7], BusRec::Write(vec![0x00, 0x00, 0x00, 0x02]));
    assert_eq!(tail[8], BusRec::Write(vec![0x00, 0x00, 0x00, 0x06])); // A2
    assert_eq!(tail[9], BusRec::Write(vec![0x00, 0x00, 0x9F, 0x00])); // address low
    assert_eq!(tail[10], BusRec::Write(vec![0x00, 0x00, 0x00, 0x11])); // address high
}


#[test]
// the read decoders discard the first four received bytes and combine the
// rest big-endian
fn read_decoders() {
    assert_eq!(it8951::interface::decode_word(&[0x99, 0x98, 0x97, 0x96, 0xBE, 0xEF]), 0xBEEF);
    assert_eq!(
        it8951::interface::decode_words(&[0x99, 0x98, 0x97, 0x96, 0x12, 0x34, 0x56, 0x78], 2),
        vec![0x1234, 0x5678]
    );
    assert_eq!(it8951::interface::decode_words(&[0, 0, 0, 0], 0), Vec::<u16>::new());
}

#[test]
// an odd payload surfaces the codec's alignment error after the address and
// area commands, with no payload streamed and no LD_IMG_END
fn load_image_area_odd_payload() {
    let mut driver = active_driver(vec![]);
    let before = driver.interface.transport.log.len();
    let area = AreaImgInfo { area_x: 0, area_y: 0, area_w: 2, area_h: 1 };
    assert_eq!(
        driver.load_image_area(0x0011_9F00, MemoryConverterSetting::default(), &area, &[0xAA]),
        Err(Error::Interface(InterfaceError::BufferAlignment))
    );
    let log = recorded(driver);
    // target address (6 transactions) and LD_IMG_AREA with its 5 arguments
    assert_eq!(log.len() - before, 12);
    assert_eq!(log[log.len() - 1], BusRec::Write(vec![0x00, 0x00, 0x00, 0x01])); // h = 1
}

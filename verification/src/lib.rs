//! IT8951 e-paper controller driver.
//!
//! The driver turns high-level drawing requests (fill a rectangle, draw a
//! pixel sequence) into the controller's exact wire protocol: framed
//! command/data transactions, alignment-correct packed pixel buffers, and the
//! power-mode command sequences. The transport underneath (a SPI bus, the
//! busy and reset lines, a delay source) is abstracted by
//! [`interface::Transport`]; everything above that boundary is verified, and
//! each operation's contract states the exact byte transactions it emits.

use vstd::prelude::*;

mod area_serializer;
mod command;
mod geometry;
pub mod interface;
pub mod memory_converter_settings;
mod pixel_serializer;
mod register;
mod serialization_helper;
mod spy;

pub use area_serializer::AreaSerializer;
pub use geometry::Rect;
pub use pixel_serializer::{convert_color_to_pixel_iterator, PixelSerializer, Px};
pub use serialization_helper::get_entires_per_row;
pub use spy::{BusRec, SpyTransport};

use memory_converter_settings::MemoryConverterSetting;

verus! {

broadcast use crate::interface::lemma_prefix_trans;

/// Controller error.
#[derive(Clone, Copy, PartialEq, Eq, Structural, Debug)]
pub enum Error {
    /// controller interface error
    Interface(interface::Error),
    /// the display engine did not become ready within the configured budget
    DisplayEngineTimeout,
    /// the operation is not allowed in the driver's current power state
    NotInitialized,
    /// the staging buffer cannot hold even one row of the requested area
    InsufficientBufferCapacity,
}

/// Driver configuration. Set once at construction; read-only afterwards.
#[derive(Clone, Copy, PartialEq, Eq, Structural, Debug)]
pub struct Config {
    /// Iteration budget when waiting for the internal display engine,
    /// one iteration per microsecond of the configured timeout.
    pub timeout_display_engine: u64,
    /// Iteration budget when waiting for the busy pin,
    /// one iteration per microsecond of the configured timeout.
    pub timeout_interface: u64,
    /// Max buffer size in bytes for staging buffers. Must be even, and large
    /// enough to hold at least the pixels of one complete row.
    pub max_buffer_size: usize,
}

impl Default for Config {
    /// 15-second budgets for both waits, 1 KiB staging buffers.
    fn default() -> (r: Self)
        ensures
            r == (Config {
                timeout_display_engine: 15_000_000,
                timeout_interface: 15_000_000,
                max_buffer_size: 1024,
            }),
    {
        Config {
            timeout_display_engine: 15_000_000,
            timeout_interface: 15_000_000,
            max_buffer_size: 1024,
        }
    }
}

/// Describes the connected display. Read from the controller once during
/// initialization and immutable afterwards.
#[derive(Clone, Debug)]
pub struct DevInfo {
    /// width in pixels of the connected panel
    pub panel_width: u16,
    /// height in pixels of the connected panel
    pub panel_height: u16,
    /// start address of the frame buffer in the controller ram
    pub memory_address: u32,
    /// controller firmware version, as the ASCII bytes the controller reports
    pub firmware_version: Vec<u8>,
    /// waveform look-up-table version, as the ASCII bytes the controller
    /// reports; the LUT is specific to every display
    pub lut_version: Vec<u8>,
}

/// Describes an area on the display.
#[derive(Clone, Copy, PartialEq, Eq, Structural, Debug)]
pub struct AreaImgInfo {
    /// x position (left to right, 0 is the top left corner)
    pub area_x: u16,
    /// y position (top to bottom, 0 is the top left corner)
    pub area_y: u16,
    /// width (x axis)
    pub area_w: u16,
    /// height (y axis)
    pub area_h: u16,
}

/// Refresh waveform strategy, selecting the controller's internal look-up
/// table for a refresh; a tag passed through to the display command.
#[derive(Clone, Copy, PartialEq, Eq, Structural, Debug)]
pub enum WaveformMode {
    /// used for a full erase to white; flashy; should be used if the frame
    /// buffer is not up to date
    Init,
    /// any gray tone to black or white; non-flashy
    DirectUpdate,
    /// high image quality, all gray tones
    GrayscaleClearing16,
    /// sparse content on white, e.g. text
    GL16,
    /// only in combination with proprietary image preprocessing
    GLR16,
    /// only in combination with proprietary image preprocessing
    GLD16,
    /// fast, non-flashy, black/white to black/white only
    A2,
    /// fast, non-flashy, any gray tone to gray tones 1, 6, 11, 16
    DU4,
}

impl WaveformMode {
    /// The controller's encoding of this mode.
    pub open spec fn spec_value(self) -> u16 {
        match self {
            WaveformMode::Init => 0,
            WaveformMode::DirectUpdate => 1,
            WaveformMode::GrayscaleClearing16 => 2,
            WaveformMode::GL16 => 3,
            WaveformMode::GLR16 => 4,
            WaveformMode::GLD16 => 5,
            WaveformMode::A2 => 6,
            WaveformMode::DU4 => 7,
        }
    }

    /// The mode as the argument word of a display command.
    pub fn into_arg(self) -> (r: u16)
        ensures
            r == self.spec_value(),
    {
        match self {
            WaveformMode::Init => 0,
            WaveformMode::DirectUpdate => 1,
            WaveformMode::GrayscaleClearing16 => 2,
            WaveformMode::GL16 => 3,
            WaveformMode::GLR16 => 4,
            WaveformMode::GLD16 => 5,
            WaveformMode::A2 => 6,
            WaveformMode::DU4 => 7,
        }
    }
}

/// The driver's power/lifecycle state. Only `Active` allows drawing, display
/// and memory operations; `Uninitialized` allows only `init` or `attach`;
/// `PowerDown` (sleep or standby) allows only waking up via `sys_run`.
#[derive(Clone, Copy, PartialEq, Eq, Structural, Debug)]
pub enum OperationalMode {
    /// not initialized: after construction or a power cycle
    Uninitialized,
    /// normal operation
    Active,
    /// sleep or standby: woken by `sys_run`
    PowerDown,
}

impl From<interface::Error> for Error {
    fn from(e: interface::Error) -> (r: Self) {
        Error::Interface(e)
    }
}

impl vstd::std_specs::convert::FromSpecImpl<interface::Error> for Error {
    open spec fn obeys_from_spec() -> bool {
        true
    }

    open spec fn from_spec(e: interface::Error) -> Self {
        Error::Interface(e)
    }
}

/// Wrap an interface-level result into a controller-level one, keeping the
/// error identity visible to callers.
fn lift<V>(r: Result<V, interface::Error>) -> (out: Result<V, Error>)
    ensures
        match r {
            Ok(v) => out == Ok::<V, Error>(v),
            Err(e) => out == Err::<V, Error>(Error::Interface(e)),
        },
{
    match r {
        Ok(v) => Ok(v),
        Err(e) => Err(Error::Interface(e)),
    }
}

// The bus transactions of each register/command operation, over the
// interface's bus model.
/// A bare command with no arguments.
pub open spec fn command_ops(cmd: u16) -> Seq<interface::BusOp> {
    seq![interface::BusOp::Write(interface::command_frame(cmd))]
}

/// A register write: the REG_WR command, the address, the value.
pub open spec fn reg_write_ops(reg: u16, value: u16) -> Seq<interface::BusOp> {
    seq![
        interface::BusOp::Write(interface::command_frame(command::IT8951_TCON_REG_WR)),
        interface::BusOp::Write(interface::data_frame(reg)),
        interface::BusOp::Write(interface::data_frame(value)),
    ]
}

/// A register read: the REG_RD command, the address, one word read back.
pub open spec fn reg_read_ops(reg: u16) -> Seq<interface::BusOp> {
    seq![
        interface::BusOp::Write(interface::command_frame(command::IT8951_TCON_REG_RD)),
        interface::BusOp::Write(interface::data_frame(reg)),
        interface::BusOp::Exchange(interface::read_frame()),
    ]
}

/// A VCOM read: the VCOM command with sub-argument 0, one word read back.
pub open spec fn vcom_get_ops() -> Seq<interface::BusOp> {
    seq![
        interface::BusOp::Write(interface::command_frame(command::USDEF_I80_CMD_VCOM)),
        interface::BusOp::Write(interface::data_frame(0)),
        interface::BusOp::Exchange(interface::read_frame()),
    ]
}

/// A VCOM write: the VCOM command with sub-argument 1, then the value.
pub open spec fn vcom_set_ops(vcom: u16) -> Seq<interface::BusOp> {
    seq![
        interface::BusOp::Write(interface::command_frame(command::USDEF_I80_CMD_VCOM)),
        interface::BusOp::Write(interface::data_frame(1)),
        interface::BusOp::Write(interface::data_frame(vcom)),
    ]
}

/// The device-info query: the GET_DEV_INFO command, then 20 words read back.
pub open spec fn dev_info_ops() -> Seq<interface::BusOp> {
    seq![
        interface::BusOp::Write(interface::command_frame(command::USDEF_I80_CMD_GET_DEV_INFO)),
        interface::BusOp::Exchange(interface::read_block_frame(20)),
    ]
}

/// Setting the target frame-buffer address: high half to `LISAR + 2`, low
/// half to `LISAR`.
pub open spec fn target_addr_ops(addr: u32) -> Seq<interface::BusOp> {
    reg_write_ops((register::LISAR + 2) as u16, (addr / 0x10000) as u16) + reg_write_ops(
        register::LISAR,
        (addr % 0x10000) as u16,
    )
}

/// IT8951 e-paper driver over an abstract controller interface.
///
/// The interface (usually [`interface::IT8951SPIInterface`] over a real bus)
/// carries the bus model against which every operation's contract states the
/// transactions it emits.
pub struct IT8951<I: interface::IT8951Interface> {
    /// the controller interface
    pub interface: I,
    /// device information, read once during `init`/`attach`
    pub dev_info: Option<DevInfo>,
    /// current power/lifecycle state
    pub state: OperationalMode,
    /// driver configuration
    pub config: Config,
    /// pixel preprocessing settings sent with every image load
    pub memory_converter_settings: MemoryConverterSetting,
}

impl<I: interface::IT8951Interface> IT8951<I> {
    /// The driver state is consistent: once initialized (active or powered
    /// down), the driver holds device information.
    pub open spec fn wf(&self) -> bool {
        self.state != OperationalMode::Uninitialized ==> self.dev_info is Some
    }

    /// Shorthand for the interface's bus model.
    pub open spec fn bus(&self) -> Seq<interface::BusOp> {
        self.interface.bus()
    }

    /// Everything but the interface and the power state is unchanged.
    pub open spec fn same_settings(&self, other: &Self) -> bool {
        &&& self.dev_info == other.dev_info
        &&& self.config == other.config
        &&& self.memory_converter_settings == other.memory_converter_settings
    }

    /// Creates a new controller driver object with default pixel
    /// preprocessing settings. Call `init` afterwards to initialize the
    /// controller.
    pub fn new(interface: I, config: Config) -> (r: IT8951<I>)
        ensures
            r.bus() == interface.bus(),
            r.state == OperationalMode::Uninitialized,
            r.dev_info is None,
            r.config == config,
            r.memory_converter_settings == (MemoryConverterSetting {
                endianness: memory_converter_settings::MemoryConverterEndianness::LittleEndian,
                bit_per_pixel: memory_converter_settings::MemoryConverterBitPerPixel::BitsPerPixel4,
                rotation: memory_converter_settings::MemoryConverterRotation::Rotate0,
            }),
    {
        Self::new_with_mcs(interface, config, MemoryConverterSetting::default())
    }

    /// Creates a new controller driver object with custom memory converter
    /// settings (e.g. to specify a rotation). Call `init` afterwards to
    /// initialize the controller.
    pub fn new_with_mcs(interface: I, config: Config, mcs: MemoryConverterSetting) -> (r: IT8951<
        I,
    >)
        ensures
            r.bus() == interface.bus(),
            r.state == OperationalMode::Uninitialized,
            r.dev_info is None,
            r.config == config,
            r.memory_converter_settings == mcs,
    {
        let mut interface = interface;
        interface.set_busy_timeout(config.timeout_interface);
        IT8951 {
            interface,
            dev_info: None,
            state: OperationalMode::Uninitialized,
            config,
            memory_converter_settings: mcs,
        }
    }

    /// Give the controller interface back, consuming the driver.
    pub fn into_interface(self) -> (r: I)
        ensures
            r.bus() == self.bus(),
    {
        self.interface
    }

    /// Write a register through REG_WR.
    fn write_register(&mut self, reg: u16, data: u16) -> (r: Result<(), Error>)
        ensures
            final(self).state == old(self).state,
            final(self).same_settings(old(self)),
            old(self).bus().is_prefix_of(final(self).bus()),
            r is Err ==> r.unwrap_err() is Interface,
            r is Ok ==> final(self).bus() == old(self).bus() + reg_write_ops(reg, data),
    {
        let ghost orig = self.bus();
        proof {
            interface::lemma_prefix_here(orig, self.bus());
        }
        lift(self.interface.write_command(command::IT8951_TCON_REG_WR))?;
        proof {
            interface::lemma_prefix_here(orig, self.bus());
        }
        lift(self.interface.write_data(reg))?;
        proof {
            interface::lemma_prefix_here(orig, self.bus());
        }
        lift(self.interface.write_data(data))?;
        proof {
            assert(self.bus() =~= orig + reg_write_ops(reg, data));
            interface::lemma_prefix_here(orig, self.bus());
        }
        Ok(())
    }

    /// Read a register through REG_RD; the value is whatever the controller
    /// returned.
    fn read_register(&mut self, reg: u16) -> (r: Result<u16, Error>)
        ensures
            final(self).state == old(self).state,
            final(self).same_settings(old(self)),
            old(self).bus().is_prefix_of(final(self).bus()),
            r is Err ==> r.unwrap_err() is Interface,
            r is Ok ==> final(self).bus() == old(self).bus() + reg_read_ops(reg),
    {
        let ghost orig = self.bus();
        proof {
            interface::lemma_prefix_here(orig, self.bus());
        }
        lift(self.interface.write_command(command::IT8951_TCON_REG_RD))?;
        proof {
            interface::lemma_prefix_here(orig, self.bus());
        }
        lift(self.interface.write_data(reg))?;
        proof {
            interface::lemma_prefix_here(orig, self.bus());
        }
        let data = lift(self.interface.read_data())?;
        proof {
            assert(self.bus() =~= orig + reg_read_ops(reg));
            interface::lemma_prefix_here(orig, self.bus());
        }
        Ok(data)
    }

    /// Read the current VCOM value from the controller.
    fn get_vcom(&mut self) -> (r: Result<u16, Error>)
        ensures
            final(self).state == old(self).state,
            final(self).same_settings(old(self)),
            old(self).bus().is_prefix_of(final(self).bus()),
            r is Err ==> r.unwrap_err() is Interface,
            r is Ok ==> final(self).bus() == old(self).bus() + vcom_get_ops(),
    {
        let ghost orig = self.bus();
        proof {
            interface::lemma_prefix_here(orig, self.bus());
        }
        lift(self.interface.write_command(command::USDEF_I80_CMD_VCOM))?;
        proof {
            interface::lemma_prefix_here(orig, self.bus());
        }
        lift(self.interface.write_data(0x0000))?;
        proof {
            interface::lemma_prefix_here(orig, self.bus());
        }
        let vcom = lift(self.interface.read_data())?;
        proof {
            assert(self.bus() =~= orig + vcom_get_ops());
            interface::lemma_prefix_here(orig, self.bus());
        }
        Ok(vcom)
    }

    /// Write a VCOM value to the controller.
    fn set_vcom(&mut self, vcom: u16) -> (r: Result<(), Error>)
        ensures
            final(self).state == old(self).state,
            final(self).same_settings(old(self)),
            old(self).bus().is_prefix_of(final(self).bus()),
            r is Err ==> r.unwrap_err() is Interface,
            r is Ok ==> final(self).bus() == old(self).bus() + vcom_set_ops(vcom),
    {
        let ghost orig = self.bus();
        proof {
            interface::lemma_prefix_here(orig, self.bus());
        }
        lift(self.interface.write_command(command::USDEF_I80_CMD_VCOM))?;
        proof {
            interface::lemma_prefix_here(orig, self.bus());
        }
        lift(self.interface.write_data(0x0001))?;
        proof {
            interface::lemma_prefix_here(orig, self.bus());
        }
        lift(self.interface.write_data(vcom))?;
        proof {
            assert(self.bus() =~= orig + vcom_set_ops(vcom));
            interface::lemma_prefix_here(orig, self.bus());
        }
        Ok(())
    }

    /// Point the controller's image load machinery at the given
    /// frame-buffer address.
    fn set_target_memory_addr(&mut self, target_mem_addr: u32) -> (r: Result<(), Error>)
        ensures
            final(self).state == old(self).state,
            final(self).same_settings(old(self)),
            old(self).bus().is_prefix_of(final(self).bus()),
            r is Err ==> r.unwrap_err() is Interface,
            r is Ok ==> final(self).bus() == old(self).bus() + target_addr_ops(target_mem_addr),
    {
        let ghost orig = self.bus();
        proof {
            interface::lemma_prefix_here(orig, self.bus());
        }
        self.write_register(register::LISAR + 2, (target_mem_addr >> 16) as u16)?;
        proof {
            interface::lemma_prefix_here(orig, self.bus());
        }
        self.write_register(register::LISAR, (target_mem_addr & 0xFFFF) as u16)?;
        proof {
            assert(target_mem_addr >> 16 == target_mem_addr / 0x10000) by (bit_vector);
            assert(target_mem_addr & 0xFFFF == target_mem_addr % 0x10000) by (bit_vector);
            assert(self.bus() =~= orig + target_addr_ops(target_mem_addr));
            interface::lemma_prefix_here(orig, self.bus());
        }
        Ok(())
    }

    /// Increase the driver strength (register `0x0038` set to `0x0602`).
    /// Use only if the image is not clear.
    pub fn enhance_driving_capability(&mut self) -> (r: Result<(), Error>)
        requires
            old(self).wf(),
        ensures
            final(self).wf(),
            final(self).state == old(self).state,
            final(self).same_settings(old(self)),
            r is Err ==> (r.unwrap_err() is NotInitialized || r.unwrap_err() is Interface),
            r == Err::<(), Error>(Error::NotInitialized) <==> old(self).state
                != OperationalMode::Active,
            old(self).state != OperationalMode::Active ==> final(self).bus() == old(self).bus(),
            old(self).bus().is_prefix_of(final(self).bus()),
            r is Ok ==> final(self).bus() == old(self).bus() + reg_write_ops(0x0038, 0x0602),
    {
        if !matches!(self.state, OperationalMode::Active) {
            proof {
                interface::lemma_prefix_refl(self.bus());
            }
            return Err(Error::NotInitialized);
        }
        self.write_register(0x0038, 0x0602)?;
        Ok(())
    }

    /// Activate the active power mode (the normal operation mode), waking
    /// the controller from sleep or standby.
    pub fn sys_run(&mut self) -> (r: Result<(), Error>)
        requires
            old(self).wf(),
        ensures
            final(self).wf(),
            final(self).same_settings(old(self)),
            r is Err ==> (r.unwrap_err() is NotInitialized || r.unwrap_err() is Interface),
            r == Err::<(), Error>(Error::NotInitialized) <==> old(self).state
                != OperationalMode::PowerDown,
            old(self).state != OperationalMode::PowerDown ==> final(self).bus() == old(self).bus()
                && final(self).state == old(self).state,
            r is Err ==> final(self).bus() == old(self).bus(),
            r is Ok ==> final(self).bus() == old(self).bus() + command_ops(
                command::IT8951_TCON_SYS_RUN,
            ) && final(self).state == OperationalMode::Active,
            (r is Err && old(self).state == OperationalMode::PowerDown) ==> final(self).state
                == OperationalMode::PowerDown,
    {
        if !matches!(self.state, OperationalMode::PowerDown) {
            return Err(Error::NotInitialized);
        }
        let ghost orig = self.bus();
        lift(self.interface.write_command(command::IT8951_TCON_SYS_RUN))?;
        proof {
            assert(self.bus() =~= orig + command_ops(command::IT8951_TCON_SYS_RUN));
        }
        self.state = OperationalMode::Active;
        Ok(())
    }

    /// Activate the sleep power mode: all clocks, pll, osc and the panel are
    /// off, but the ram is refreshed.
    pub fn sleep(&mut self) -> (r: Result<(), Error>)
        requires
            old(self).wf(),
        ensures
            final(self).wf(),
            final(self).same_settings(old(self)),
            r is Err ==> (r.unwrap_err() is NotInitialized || r.unwrap_err() is Interface),
            r == Err::<(), Error>(Error::NotInitialized) <==> old(self).state
                != OperationalMode::Active,
            old(self).state != OperationalMode::Active ==> final(self).bus() == old(self).bus()
                && final(self).state == old(self).state,
            r is Err ==> final(self).bus() == old(self).bus(),
            r is Ok ==> final(self).bus() == old(self).bus() + command_ops(
                command::IT8951_TCON_SLEEP,
            ) && final(self).state == OperationalMode::PowerDown,
            (r is Err && old(self).state == OperationalMode::Active) ==> final(self).state
                == OperationalMode::Active,
    {
        if !matches!(self.state, OperationalMode::Active) {
            return Err(Error::NotInitialized);
        }
        let ghost orig = self.bus();
        lift(self.interface.write_command(command::IT8951_TCON_SLEEP))?;
        proof {
            assert(self.bus() =~= orig + command_ops(command::IT8951_TCON_SLEEP));
        }
        self.state = OperationalMode::PowerDown;
        Ok(())
    }

    /// Activate the standby power mode: clocks are gated off, but pll, osc,
    /// panel power and ram stay active.
    pub fn standby(&mut self) -> (r: Result<(), Error>)
        requires
            old(self).wf(),
        ensures
            final(self).wf(),
            final(self).same_settings(old(self)),
            r is Err ==> (r.unwrap_err() is NotInitialized || r.unwrap_err() is Interface),
            r == Err::<(), Error>(Error::NotInitialized) <==> old(self).state
                != OperationalMode::Active,
            old(self).state != OperationalMode::Active ==> final(self).bus() == old(self).bus()
                && final(self).state == old(self).state,
            r is Err ==> final(self).bus() == old(self).bus(),
            r is Ok ==> final(self).bus() == old(self).bus() + command_ops(
                command::IT8951_TCON_STANDBY,
            ) && final(self).state == OperationalMode::PowerDown,
            (r is Err && old(self).state == OperationalMode::Active) ==> final(self).state
                == OperationalMode::Active,
    {
        if !matches!(self.state, OperationalMode::Active) {
            return Err(Error::NotInitialized);
        }
        let ghost orig = self.bus();
        lift(self.interface.write_command(command::IT8951_TCON_STANDBY))?;
        proof {
            assert(self.bus() =~= orig + command_ops(command::IT8951_TCON_STANDBY));
        }
        self.state = OperationalMode::PowerDown;
        Ok(())
    }
}

/// The version fields of the device info block, decoded: each nonzero word
/// contributes its low byte then its high byte as ASCII characters; zero
/// words are skipped.
pub open spec fn version_chars(words: Seq<u16>) -> Seq<u8>
    decreases words.len(),
{
    if words.len() == 0 {
        Seq::empty()
    } else if words[0] == 0 {
        version_chars(words.drop_first())
    } else {
        seq![interface::lo8(words[0]), interface::hi8(words[0])] + version_chars(
            words.drop_first(),
        )
    }
}

/// Decode the version characters of `words[from..to]`.
fn version_bytes(words: &Vec<u16>, from: usize, to: usize) -> (r: Vec<u8>)
    requires
        from <= to <= words@.len(),
    ensures
        r@ == version_chars(words@.subrange(from as int, to as int)),
{
    let mut out: Vec<u8> = Vec::new();
    let mut i: usize = from;
    proof {
        assert(out@ + version_chars(words@.subrange(from as int, to as int)) =~= version_chars(
            words@.subrange(from as int, to as int),
        ));
    }
    while i < to
        invariant
            from <= i <= to <= words@.len(),
            version_chars(words@.subrange(from as int, to as int)) == out@ + version_chars(
                words@.subrange(i as int, to as int),
            ),
        decreases to - i,
    {
        let ghost s = words@.subrange(i as int, to as int);
        proof {
            assert(s[0] == words@[i as int]);
            assert(s.drop_first() =~= words@.subrange(i as int + 1, to as int));
        }
        let word = words[i];
        if word != 0 {
            out.push((word % 0x100) as u8);
            out.push((word / 0x100) as u8);
            proof {
                assert(version_chars(s) =~= seq![
                    interface::lo8(word),
                    interface::hi8(word),
                ] + version_chars(s.drop_first()));
                assert(version_chars(words@.subrange(from as int, to as int)) =~= out@
                    + version_chars(words@.subrange(i as int + 1, to as int)));
            }
        } else {
            proof {
                assert(version_chars(s) == version_chars(s.drop_first()));
            }
        }
        i = i + 1;
    }
    proof {
        assert(words@.subrange(to as int, to as int) =~= Seq::<u16>::empty());
        assert(out@ + Seq::<u8>::empty() =~= out@);
    }
    out
}

/// Decode the 20-word device info block: width, height, the frame buffer
/// address split over words 2 and 3 (low half first), then 8 words each of
/// firmware and LUT version characters.
pub fn decode_dev_info(words: &Vec<u16>) -> (r: DevInfo)
    requires
        words@.len() == 20,
    ensures
        r.panel_width == words@[0],
        r.panel_height == words@[1],
        r.memory_address == words@[3] * 0x10000 + words@[2],
        r.firmware_version@ == version_chars(words@.subrange(4, 12)),
        r.lut_version@ == version_chars(words@.subrange(12, 20)),
{
    DevInfo {
        panel_width: words[0],
        panel_height: words[1],
        memory_address: (words[3] as u32) * 0x10000 + (words[2] as u32),
        firmware_version: version_bytes(words, 4, 12),
        lut_version: version_bytes(words, 12, 20),
    }
}

/// The transactions of a successful `init`, up to the VCOM comparison: the
/// reset pulse, SYS_RUN, the device info query, the pack-write enable, the
/// VCOM read.
pub open spec fn init_base_ops() -> Seq<interface::BusOp> {
    interface::reset_ops() + command_ops(command::IT8951_TCON_SYS_RUN) + dev_info_ops()
        + reg_write_ops(register::I80CPCR, 0x0001) + vcom_get_ops()
}

/// The transactions of a successful `attach`: SYS_RUN and the device info
/// query.
pub open spec fn attach_ops() -> Seq<interface::BusOp> {
    command_ops(command::IT8951_TCON_SYS_RUN) + dev_info_ops()
}

/// `n` polls of the display engine's busy register.
pub open spec fn poll_ops(n: int) -> Seq<interface::BusOp>
    decreases n,
{
    if n <= 0 {
        Seq::empty()
    } else {
        poll_ops(n - 1) + reg_read_ops(register::LUTAFSR)
    }
}

impl<I: interface::IT8951Interface> IT8951<I> {
    /// Issue the device info query and decode the reply.
    fn get_system_info(&mut self) -> (r: Result<DevInfo, Error>)
        ensures
            final(self).state == old(self).state,
            final(self).same_settings(old(self)),
            old(self).bus().is_prefix_of(final(self).bus()),
            r is Err ==> r.unwrap_err() is Interface,
            r is Ok ==> final(self).bus() == old(self).bus() + dev_info_ops(),
    {
        let ghost orig = self.bus();
        proof {
            interface::lemma_prefix_here(orig, self.bus());
        }
        lift(self.interface.write_command(command::USDEF_I80_CMD_GET_DEV_INFO))?;
        proof {
            interface::lemma_prefix_here(orig, self.bus());
        }
        lift(self.interface.wait_while_busy())?;
        proof {
            interface::lemma_prefix_here(orig, self.bus());
        }
        let words = lift(self.interface.read_multi_data(20))?;
        proof {
            assert(self.bus() =~= orig + dev_info_ops());
            interface::lemma_prefix_here(orig, self.bus());
        }
        Ok(decode_dev_info(&words))
    }

    /// Initialize the driver: pulse reset, switch to the active power mode,
    /// read the device information, enable packed writes, and align the
    /// controller's VCOM value with the requested one (writing it only when
    /// it differs). The VCOM value should be given on your display.
    pub fn init(&mut self, vcom: u16) -> (r: Result<(), Error>)
        requires
            old(self).wf(),
        ensures
            final(self).wf(),
            final(self).config == old(self).config,
            final(self).memory_converter_settings == old(self).memory_converter_settings,
            r is Err ==> (r.unwrap_err() is NotInitialized || r.unwrap_err() is Interface),
            r == Err::<(), Error>(Error::NotInitialized) <==> old(self).state
                != OperationalMode::Uninitialized,
            old(self).state != OperationalMode::Uninitialized ==> final(self).bus() == old(
                self,
            ).bus() && final(self).state == old(self).state && final(self).dev_info == old(
                self,
            ).dev_info,
            r is Err ==> final(self).state == old(self).state && final(self).dev_info == old(
                self,
            ).dev_info,
            old(self).bus().is_prefix_of(final(self).bus()),
            r is Ok ==> {
                &&& final(self).state == OperationalMode::Active
                &&& final(self).dev_info is Some
                &&& (final(self).bus() == old(self).bus() + init_base_ops() || final(self).bus()
                    == old(self).bus() + init_base_ops() + vcom_set_ops(vcom))
            },
    {
        if !matches!(self.state, OperationalMode::Uninitialized) {
            proof {
                interface::lemma_prefix_refl(self.bus());
            }
            return Err(Error::NotInitialized);
        }
        let ghost orig = self.bus();
        proof {
            interface::lemma_prefix_here(orig, self.bus());
        }
        lift(self.interface.reset())?;
        proof {
            interface::lemma_prefix_here(orig, self.bus());
        }
        lift(self.interface.write_command(command::IT8951_TCON_SYS_RUN))?;
        proof {
            interface::lemma_prefix_here(orig, self.bus());
        }
        let dev_info = self.get_system_info()?;
        // Enable Pack Write
        proof {
            interface::lemma_prefix_here(orig, self.bus());
        }
        self.write_register(register::I80CPCR, 0x0001)?;
        proof {
            interface::lemma_prefix_here(orig, self.bus());
        }
        let current = self.get_vcom()?;
        proof {
            assert(self.bus() =~= orig + init_base_ops());
            interface::lemma_prefix_here(orig, self.bus());
        }
        if vcom != current {
            self.set_vcom(vcom)?;
            proof {
                assert(self.bus() =~= orig + init_base_ops() + vcom_set_ops(vcom));
                interface::lemma_prefix_here(orig, self.bus());
            }
        }
        self.dev_info = Some(dev_info);
        self.state = OperationalMode::Active;
        Ok(())
    }

    /// Create a driver for an already powered and initialized controller:
    /// skip the reset and VCOM negotiation, switch to the active power mode
    /// and read the device information. This can be useful if the display
    /// stayed powered while the host restarted.
    pub fn attach(interface: I, config: Config) -> (r: Result<IT8951<I>, Error>)
        ensures
            r matches Err(e) ==> e is Interface,
            r is Ok ==> {
                let d = r.unwrap();
                &&& d.wf()
                &&& d.state == OperationalMode::Active
                &&& d.dev_info is Some
                &&& d.config == config
                &&& d.memory_converter_settings == (MemoryConverterSetting {
                    endianness: memory_converter_settings::MemoryConverterEndianness::LittleEndian,
                    bit_per_pixel: memory_converter_settings::MemoryConverterBitPerPixel::BitsPerPixel4,
                    rotation: memory_converter_settings::MemoryConverterRotation::Rotate0,
                })
                &&& d.bus() == interface.bus() + attach_ops()
            },
    {
        let mut it8951 = IT8951::new_with_mcs(interface, config, MemoryConverterSetting::default());
        let ghost orig = it8951.bus();
        lift(it8951.interface.write_command(command::IT8951_TCON_SYS_RUN))?;
        proof {
            interface::lemma_prefix_here(orig, it8951.bus());
        }
        let dev_info = it8951.get_system_info()?;
        proof {
            assert(it8951.bus() =~= orig + attach_ops());
        }
        it8951.dev_info = Some(dev_info);
        it8951.state = OperationalMode::Active;
        Ok(it8951)
    }

    /// The device information read during `init` or `attach`.
    pub fn get_dev_info(&self) -> (r: DevInfo)
        requires
            self.wf(),
            self.state == OperationalMode::Active,
        ensures
            r.panel_width == self.dev_info.unwrap().panel_width,
            r.panel_height == self.dev_info.unwrap().panel_height,
            r.memory_address == self.dev_info.unwrap().memory_address,
            r.firmware_version@ == self.dev_info.unwrap().firmware_version@,
            r.lut_version@ == self.dev_info.unwrap().lut_version@,
    {
        let info = self.dev_info.as_ref().unwrap();
        DevInfo {
            panel_width: info.panel_width,
            panel_height: info.panel_height,
            memory_address: info.memory_address,
            firmware_version: vstd::slice::slice_to_vec(info.firmware_version.as_slice()),
            lut_version: vstd::slice::slice_to_vec(info.lut_version.as_slice()),
        }
    }

    /// Poll the display engine's busy register until every refresh engine is
    /// idle, or the configured budget runs out
    /// ([`Error::DisplayEngineTimeout`]).
    #[verifier::loop_isolation(false)]
    fn wait_for_display_ready(&mut self) -> (r: Result<(), Error>)
        ensures
            final(self).state == old(self).state,
            final(self).same_settings(old(self)),
            old(self).bus().is_prefix_of(final(self).bus()),
            r is Err ==> (r.unwrap_err() is Interface || r.unwrap_err()
                is DisplayEngineTimeout),
            r is Ok ==> exists|n: int|
                1 <= n <= old(self).config.timeout_display_engine + 1 && final(self).bus() == old(
                    self,
                ).bus() + poll_ops(n),
            r == Err::<(), Error>(Error::DisplayEngineTimeout) ==> final(self).bus() == old(
                self,
            ).bus() + poll_ops(old(self).config.timeout_display_engine as int + 1),
    {
        let ghost orig = self.bus();
        let timeout: u64 = self.config.timeout_display_engine;
        let mut counter: u64 = 0;
        let ghost mut polls: int = 0;
        proof {
            interface::lemma_prefix_refl(orig);
        }
        loop
            invariant
                self.bus() == orig + poll_ops(polls),
                polls == counter,
                counter <= timeout,
                self.state == old(self).state,
                self.same_settings(old(self)),
            decreases timeout - counter,
        {
            proof {
                interface::lemma_prefix_extend(orig, poll_ops(polls));
            }
            let value = self.read_register(register::LUTAFSR)?;
            proof {
                assert(poll_ops(polls + 1) =~= poll_ops(polls) + reg_read_ops(register::LUTAFSR));
                assert(self.bus() =~= orig + poll_ops(polls + 1));
                polls = polls + 1;
                interface::lemma_prefix_extend(orig, poll_ops(polls));
            }
            if value == 0 {
                return Ok(());
            }
            if counter >= timeout {
                return Err(Error::DisplayEngineTimeout);
            }
            counter = counter + 1;
            lift(self.interface.delay(1))?;
        }
    }
}

/// The rotation transform from logical (application) rectangle space to
/// physical panel space, for a panel of physical width `pw` and height `ph`.
pub open spec fn spec_rotate(
    rotation: memory_converter_settings::MemoryConverterRotation,
    pw: u16,
    ph: u16,
    a: AreaImgInfo,
) -> AreaImgInfo {
    match rotation {
        memory_converter_settings::MemoryConverterRotation::Rotate0 => a,
        memory_converter_settings::MemoryConverterRotation::Rotate90 => AreaImgInfo {
            area_x: a.area_y,
            area_y: (ph - a.area_w - a.area_x) as u16,
            area_w: a.area_h,
            area_h: a.area_w,
        },
        memory_converter_settings::MemoryConverterRotation::Rotate180 => AreaImgInfo {
            area_x: (pw - a.area_w - a.area_x) as u16,
            area_y: (ph - a.area_h - a.area_y) as u16,
            area_w: a.area_w,
            area_h: a.area_h,
        },
        memory_converter_settings::MemoryConverterRotation::Rotate270 => AreaImgInfo {
            area_x: (pw - a.area_h - a.area_y) as u16,
            area_y: a.area_x,
            area_w: a.area_h,
            area_h: a.area_w,
        },
    }
}

/// Whether the rotation transform keeps the rectangle inside the panel's
/// address space (no subtraction underflows).
pub open spec fn rotate_fits(
    rotation: memory_converter_settings::MemoryConverterRotation,
    pw: u16,
    ph: u16,
    a: AreaImgInfo,
) -> bool {
    match rotation {
        memory_converter_settings::MemoryConverterRotation::Rotate0 => true,
        memory_converter_settings::MemoryConverterRotation::Rotate90 => a.area_x + a.area_w <= ph,
        memory_converter_settings::MemoryConverterRotation::Rotate180 => a.area_x + a.area_w <= pw
            && a.area_y + a.area_h <= ph,
        memory_converter_settings::MemoryConverterRotation::Rotate270 => a.area_y + a.area_h <= pw,
    }
}

/// Law: the 90-degree rotation composes to the identity after four
/// applications, for every rectangle whose extents stay inside the panel
/// height along both axes.
pub proof fn lemma_rotate90_four_times_identity(a: AreaImgInfo, pw: u16, ph: u16)
    requires
        a.area_x + a.area_w <= ph,
        a.area_y + a.area_h <= ph,
    ensures
        ({
            let r = memory_converter_settings::MemoryConverterRotation::Rotate90;
            spec_rotate(r, pw, ph, spec_rotate(r, pw, ph, spec_rotate(r, pw, ph, spec_rotate(r, pw, ph, a))))
                == a
        }),
{
}

impl<I: interface::IT8951Interface> IT8951<I> {
    /// The physical panel width, as the controller reported it.
    pub open spec fn panel_width(&self) -> u16 {
        self.dev_info.unwrap().panel_width
    }

    /// The physical panel height, as the controller reported it.
    pub open spec fn panel_height(&self) -> u16 {
        self.dev_info.unwrap().panel_height
    }

    /// The panel extents in logical (application) space: physical width and
    /// height, swapped under 90- and 270-degree rotation.
    pub open spec fn spec_size(&self) -> (u16, u16) {
        match self.memory_converter_settings.rotation {
            memory_converter_settings::MemoryConverterRotation::Rotate0
            | memory_converter_settings::MemoryConverterRotation::Rotate180 => (
                self.panel_width(),
                self.panel_height(),
            ),
            memory_converter_settings::MemoryConverterRotation::Rotate90
            | memory_converter_settings::MemoryConverterRotation::Rotate270 => (
                self.panel_height(),
                self.panel_width(),
            ),
        }
    }

    /// The panel size in logical (application) space, width then height.
    pub fn size(&self) -> (r: (u16, u16))
        requires
            self.wf(),
            self.state == OperationalMode::Active,
        ensures
            r == self.spec_size(),
    {
        let info = self.dev_info.as_ref().unwrap();
        match self.memory_converter_settings.rotation {
            memory_converter_settings::MemoryConverterRotation::Rotate0
            | memory_converter_settings::MemoryConverterRotation::Rotate180 => (
                info.panel_width,
                info.panel_height,
            ),
            memory_converter_settings::MemoryConverterRotation::Rotate90
            | memory_converter_settings::MemoryConverterRotation::Rotate270 => (
                info.panel_height,
                info.panel_width,
            ),
        }
    }

    /// Map a logical rectangle to physical panel coordinates according to
    /// the configured rotation.
    pub fn rotate_area_info(&self, area: &AreaImgInfo) -> (r: AreaImgInfo)
        requires
            self.wf(),
            self.state == OperationalMode::Active,
            rotate_fits(
                self.memory_converter_settings.rotation,
                self.panel_width(),
                self.panel_height(),
                *area,
            ),
        ensures
            r == spec_rotate(
                self.memory_converter_settings.rotation,
                self.panel_width(),
                self.panel_height(),
                *area,
            ),
    {
        let info = self.dev_info.as_ref().unwrap();
        let pw = info.panel_width;
        let ph = info.panel_height;
        let (x, y, w, h) = (area.area_x, area.area_y, area.area_w, area.area_h);
        let (x, y, w, h) = match self.memory_converter_settings.rotation {
            memory_converter_settings::MemoryConverterRotation::Rotate0 => (x, y, w, h),
            memory_converter_settings::MemoryConverterRotation::Rotate90 => (
                y,
                ph - w - x,
                h,
                w,
            ),
            memory_converter_settings::MemoryConverterRotation::Rotate180 => (
                pw - w - x,
                ph - h - y,
                w,
                h,
            ),
            memory_converter_settings::MemoryConverterRotation::Rotate270 => (
                pw - h - y,
                x,
                h,
                w,
            ),
        };
        AreaImgInfo { area_x: x, area_y: y, area_w: w, area_h: h }
    }

    /// Refresh a physical area of the display with the frame buffer
    /// content, after waiting for the display engine: the rotated area's
    /// coordinates and the waveform mode go out with the DPY_AREA command.
    /// A use-case specific waveform must be selected by the caller.
    pub fn display_area(&mut self, area_info: &AreaImgInfo, mode: WaveformMode) -> (r: Result<
        (),
        Error,
    >)
        requires
            old(self).wf(),
            old(self).state == OperationalMode::Active ==> rotate_fits(
                old(self).memory_converter_settings.rotation,
                old(self).panel_width(),
                old(self).panel_height(),
                *area_info,
            ),
        ensures
            final(self).wf(),
            final(self).state == old(self).state,
            final(self).same_settings(old(self)),
            r is Err ==> (r.unwrap_err() is NotInitialized || r.unwrap_err() is Interface
                || r.unwrap_err() is DisplayEngineTimeout),
            r == Err::<(), Error>(Error::NotInitialized) <==> old(self).state
                != OperationalMode::Active,
            old(self).state != OperationalMode::Active ==> final(self).bus() == old(self).bus(),
            old(self).bus().is_prefix_of(final(self).bus()),
            r == Err::<(), Error>(Error::DisplayEngineTimeout) ==> final(self).bus() == old(
                self,
            ).bus() + poll_ops(old(self).config.timeout_display_engine as int + 1),
            r is Ok ==> exists|n: int|
                1 <= n <= old(self).config.timeout_display_engine + 1 && final(self).bus() == old(
                    self,
                ).bus() + poll_ops(n) + interface::command_with_args_ops(
                    command::USDEF_I80_CMD_DPY_AREA,
                    ({
                        let rot = spec_rotate(
                            old(self).memory_converter_settings.rotation,
                            old(self).panel_width(),
                            old(self).panel_height(),
                            *area_info,
                        );
                        seq![rot.area_x, rot.area_y, rot.area_w, rot.area_h, mode.spec_value()]
                    }),
                ),
    {
        if !matches!(self.state, OperationalMode::Active) {
            proof {
                interface::lemma_prefix_refl(self.bus());
            }
            return Err(Error::NotInitialized);
        }
        let ghost orig = self.bus();
        let area_info = self.rotate_area_info(area_info);
        proof {
            interface::lemma_prefix_here(orig, self.bus());
        }
        self.wait_for_display_ready()?;
        let ghost polled = self.bus();
        let mut args: Vec<u16> = Vec::new();
        args.push(area_info.area_x);
        args.push(area_info.area_y);
        args.push(area_info.area_w);
        args.push(area_info.area_h);
        args.push(mode.into_arg());
        proof {
            let n0 = choose|n: int|
                1 <= n <= self.config.timeout_display_engine + 1 && polled == orig + poll_ops(n);
            interface::lemma_prefix_extend(orig, poll_ops(n0));
        }
        lift(self.interface.write_command_with_args(command::USDEF_I80_CMD_DPY_AREA, args.as_slice()))?;
        proof {
            let n = choose|n: int|
                1 <= n <= old(self).config.timeout_display_engine + 1 && polled == orig + poll_ops(
                    n,
                );
            assert(self.bus() =~= orig + poll_ops(n) + interface::command_with_args_ops(
                command::USDEF_I80_CMD_DPY_AREA,
                args@,
            ));
            interface::lemma_prefix_here(orig, self.bus());
        }
        Ok(())
    }

    /// Refresh a physical area of the display from a dedicated frame
    /// buffer: like `display_area`, with the buffer address appended to the
    /// DPY_BUF_AREA command.
    pub fn display_area_buf(
        &mut self,
        area_info: &AreaImgInfo,
        mode: WaveformMode,
        target_mem_addr: u32,
    ) -> (r: Result<(), Error>)
        requires
            old(self).wf(),
            old(self).state == OperationalMode::Active ==> rotate_fits(
                old(self).memory_converter_settings.rotation,
                old(self).panel_width(),
                old(self).panel_height(),
                *area_info,
            ),
        ensures
            final(self).wf(),
            final(self).state == old(self).state,
            final(self).same_settings(old(self)),
            r is Err ==> (r.unwrap_err() is NotInitialized || r.unwrap_err() is Interface
                || r.unwrap_err() is DisplayEngineTimeout),
            r == Err::<(), Error>(Error::NotInitialized) <==> old(self).state
                != OperationalMode::Active,
            old(self).state != OperationalMode::Active ==> final(self).bus() == old(self).bus(),
            old(self).bus().is_prefix_of(final(self).bus()),
            r == Err::<(), Error>(Error::DisplayEngineTimeout) ==> final(self).bus() == old(
                self,
            ).bus() + poll_ops(old(self).config.timeout_display_engine as int + 1),
            r is Ok ==> exists|n: int|
                1 <= n <= old(self).config.timeout_display_engine + 1 && final(self).bus() == old(
                    self,
                ).bus() + poll_ops(n) + interface::command_with_args_ops(
                    command::USDEF_I80_CMD_DPY_BUF_AREA,
                    ({
                        let rot = spec_rotate(
                            old(self).memory_converter_settings.rotation,
                            old(self).panel_width(),
                            old(self).panel_height(),
                            *area_info,
                        );
                        seq![
                            rot.area_x,
                            rot.area_y,
                            rot.area_w,
                            rot.area_h,
                            mode.spec_value(),
                            (target_mem_addr % 0x10000) as u16,
                            (target_mem_addr / 0x10000) as u16,
                        ]
                    }),
                ),
    {
        if !matches!(self.state, OperationalMode::Active) {
            proof {
                interface::lemma_prefix_refl(self.bus());
            }
            return Err(Error::NotInitialized);
        }
        let ghost orig = self.bus();
        let area_info = self.rotate_area_info(area_info);
        proof {
            interface::lemma_prefix_here(orig, self.bus());
        }
        self.wait_for_display_ready()?;
        let ghost polled = self.bus();
        let mut args: Vec<u16> = Vec::new();
        args.push(area_info.area_x);
        args.push(area_info.area_y);
        args.push(area_info.area_w);
        args.push(area_info.area_h);
        args.push(mode.into_arg());
        args.push((target_mem_addr & 0xFFFF) as u16);
        args.push((target_mem_addr >> 16) as u16);
        proof {
            assert(target_mem_addr >> 16 == target_mem_addr / 0x10000) by (bit_vector);
            assert(target_mem_addr & 0xFFFF == target_mem_addr % 0x10000) by (bit_vector);
            let n0 = choose|n: int|
                1 <= n <= self.config.timeout_display_engine + 1 && polled == orig + poll_ops(n);
            interface::lemma_prefix_extend(orig, poll_ops(n0));
        }
        lift(
            self.interface.write_command_with_args(
                command::USDEF_I80_CMD_DPY_BUF_AREA,
                args.as_slice(),
            ),
        )?;
        proof {
            let n = choose|n: int|
                1 <= n <= old(self).config.timeout_display_engine + 1 && polled == orig + poll_ops(
                    n,
                );
            assert(self.bus() =~= orig + poll_ops(n) + interface::command_with_args_ops(
                command::USDEF_I80_CMD_DPY_BUF_AREA,
                args@,
            ));
            interface::lemma_prefix_here(orig, self.bus());
        }
        Ok(())
    }

    /// Refresh the full display with the frame buffer content.
    /// A use-case specific waveform must be selected by the caller.
    pub fn display(&mut self, mode: WaveformMode) -> (r: Result<(), Error>)
        requires
            old(self).wf(),
        ensures
            final(self).wf(),
            final(self).state == old(self).state,
            final(self).same_settings(old(self)),
            r is Err ==> (r.unwrap_err() is NotInitialized || r.unwrap_err() is Interface
                || r.unwrap_err() is DisplayEngineTimeout),
            r == Err::<(), Error>(Error::NotInitialized) <==> old(self).state
                != OperationalMode::Active,
            old(self).state != OperationalMode::Active ==> final(self).bus() == old(self).bus(),
            old(self).bus().is_prefix_of(final(self).bus()),
            r == Err::<(), Error>(Error::DisplayEngineTimeout) ==> final(self).bus() == old(
                self,
            ).bus() + poll_ops(old(self).config.timeout_display_engine as int + 1),
            r is Ok ==> exists|n: int|
                1 <= n <= old(self).config.timeout_display_engine + 1 && final(self).bus() == old(
                    self,
                ).bus() + poll_ops(n) + interface::command_with_args_ops(
                    command::USDEF_I80_CMD_DPY_AREA,
                    ({
                        let rot = spec_rotate(
                            old(self).memory_converter_settings.rotation,
                            old(self).panel_width(),
                            old(self).panel_height(),
                            AreaImgInfo {
                                area_x: 0,
                                area_y: 0,
                                area_w: old(self).spec_size().0,
                                area_h: old(self).spec_size().1,
                            },
                        );
                        seq![rot.area_x, rot.area_y, rot.area_w, rot.area_h, mode.spec_value()]
                    }),
                ),
    {
        if !matches!(self.state, OperationalMode::Active) {
            proof {
                interface::lemma_prefix_refl(self.bus());
            }
            return Err(Error::NotInitialized);
        }
        let (width, height) = self.size();
        self.display_area(
            &AreaImgInfo { area_x: 0, area_y: 0, area_w: width, area_h: height },
            mode,
        )?;
        Ok(())
    }
}

/// The transactions of one area image load: target address, the LD_IMG_AREA
/// command with the format argument and the area, the packed payload as one
/// block write, LD_IMG_END.
pub open spec fn load_image_area_ops(
    addr: u32,
    format_arg: u16,
    area: AreaImgInfo,
    data: Seq<u8>,
) -> Seq<interface::BusOp> {
    target_addr_ops(addr) + interface::command_with_args_ops(
        command::IT8951_TCON_LD_IMG_AREA,
        seq![format_arg, area.area_x, area.area_y, area.area_w, area.area_h],
    ) + seq![interface::BusOp::Write(interface::block_frame(data))] + command_ops(
        command::IT8951_TCON_LD_IMG_END,
    )
}

/// The transactions of one full-frame image load: target address, LD_IMG
/// with the format argument, the payload, LD_IMG_END.
pub open spec fn load_image_ops(addr: u32, format_arg: u16, data: Seq<u8>) -> Seq<
    interface::BusOp,
> {
    target_addr_ops(addr) + command_ops(command::IT8951_TCON_LD_IMG) + seq![
        interface::BusOp::Write(interface::data_frame(format_arg)),
        interface::BusOp::Write(interface::block_frame(data)),
    ] + command_ops(command::IT8951_TCON_LD_IMG_END)
}

/// The transactions of a memory burst read of `count` words.
pub open spec fn burst_read_ops(addr: u32, count: u16) -> Seq<interface::BusOp> {
    interface::command_with_args_ops(
        command::IT8951_TCON_MEM_BST_RD_T,
        seq![(addr % 0x10000) as u16, (addr / 0x10000) as u16, count, 0],
    ) + command_ops(command::IT8951_TCON_MEM_BST_RD_S) + seq![
        interface::BusOp::Exchange(interface::read_block_frame(count as int)),
    ] + command_ops(command::IT8951_TCON_MEM_BST_END)
}

/// The transactions of a memory burst write of the given payload bytes.
pub open spec fn burst_write_ops(addr: u32, data: Seq<u8>) -> Seq<interface::BusOp> {
    interface::command_with_args_ops(
        command::IT8951_TCON_MEM_BST_WR,
        seq![
            (addr % 0x10000) as u16,
            (addr / 0x10000) as u16,
            (data.len() % 0x10000) as u16,
            ((data.len() as int / 0x10000) % 0x10000) as u16,
        ],
    ) + seq![interface::BusOp::Write(interface::block_frame(data))] + command_ops(
        command::IT8951_TCON_MEM_BST_END,
    )
}

impl<I: interface::IT8951Interface> IT8951<I> {
    /// Load pixel data into an area of the controller's frame buffer
    /// through the pixel preprocessor. The memory address should come from
    /// the device info; the image settings define the payload layout; the
    /// area describes which part of the frame buffer is written. A payload
    /// that is not whole 16-bit words fails with the codec's alignment
    /// error, after the address and area commands but before any payload
    /// byte goes out.
    pub fn load_image_area(
        &mut self,
        target_mem_addr: u32,
        image_settings: MemoryConverterSetting,
        area_info: &AreaImgInfo,
        data: &[u8],
    ) -> (r: Result<(), Error>)
        requires
            old(self).wf(),
        ensures
            final(self).wf(),
            final(self).state == old(self).state,
            final(self).same_settings(old(self)),
            r is Err ==> (r.unwrap_err() is NotInitialized || r.unwrap_err() is Interface),
            r == Err::<(), Error>(Error::NotInitialized) <==> old(self).state
                != OperationalMode::Active,
            old(self).state != OperationalMode::Active ==> final(self).bus() == old(self).bus(),
            old(self).bus().is_prefix_of(final(self).bus()),
            data@.len() % 2 != 0 ==> r is Err,
            r is Ok ==> final(self).bus() == old(self).bus() + load_image_area_ops(
                target_mem_addr,
                image_settings.spec_arg(),
                *area_info,
                data@,
            ),
    {
        if !matches!(self.state, OperationalMode::Active) {
            proof {
                interface::lemma_prefix_refl(self.bus());
            }
            return Err(Error::NotInitialized);
        }
        let ghost orig = self.bus();
        // the area is not rotated here: the controller hardware applies the
        // configured rotation while converting the pixel data
        proof {
            interface::lemma_prefix_here(orig, self.bus());
        }
        self.set_target_memory_addr(target_mem_addr)?;
        let mut args: Vec<u16> = Vec::new();
        args.push(image_settings.into_arg());
        args.push(area_info.area_x);
        args.push(area_info.area_y);
        args.push(area_info.area_w);
        args.push(area_info.area_h);
        proof {
            interface::lemma_prefix_here(orig, self.bus());
        }
        lift(
            self.interface.write_command_with_args(
                command::IT8951_TCON_LD_IMG_AREA,
                args.as_slice(),
            ),
        )?;
        proof {
            interface::lemma_prefix_here(orig, self.bus());
        }
        lift(self.interface.write_multi_data(data))?;
        proof {
            interface::lemma_prefix_here(orig, self.bus());
        }
        lift(self.interface.write_command(command::IT8951_TCON_LD_IMG_END))?;
        proof {
            assert(self.bus() =~= orig + load_image_area_ops(
                target_mem_addr,
                image_settings.spec_arg(),
                *area_info,
                data@,
            ));
            interface::lemma_prefix_here(orig, self.bus());
        }
        Ok(())
    }

    /// Load a full frame into the controller's frame buffer through the
    /// pixel preprocessor. For most use cases the underlying transport
    /// cannot transfer a complete frame at once: split the frame into areas
    /// and use `load_image_area` instead. A payload that is not whole
    /// 16-bit words fails with the codec's alignment error.
    pub fn load_image(
        &mut self,
        target_mem_addr: u32,
        image_settings: MemoryConverterSetting,
        data: &[u8],
    ) -> (r: Result<(), Error>)
        requires
            old(self).wf(),
        ensures
            final(self).wf(),
            final(self).state == old(self).state,
            final(self).same_settings(old(self)),
            r is Err ==> (r.unwrap_err() is NotInitialized || r.unwrap_err() is Interface),
            r == Err::<(), Error>(Error::NotInitialized) <==> old(self).state
                != OperationalMode::Active,
            old(self).state != OperationalMode::Active ==> final(self).bus() == old(self).bus(),
            old(self).bus().is_prefix_of(final(self).bus()),
            data@.len() % 2 != 0 ==> r is Err,
            r is Ok ==> final(self).bus() == old(self).bus() + load_image_ops(
                target_mem_addr,
                image_settings.spec_arg(),
                data@,
            ),
    {
        if !matches!(self.state, OperationalMode::Active) {
            proof {
                interface::lemma_prefix_refl(self.bus());
            }
            return Err(Error::NotInitialized);
        }
        let ghost orig = self.bus();
        proof {
            interface::lemma_prefix_here(orig, self.bus());
        }
        self.set_target_memory_addr(target_mem_addr)?;
        proof {
            interface::lemma_prefix_here(orig, self.bus());
        }
        lift(self.interface.write_command(command::IT8951_TCON_LD_IMG))?;
        proof {
            interface::lemma_prefix_here(orig, self.bus());
        }
        lift(self.interface.write_data(image_settings.into_arg()))?;
        proof {
            interface::lemma_prefix_here(orig, self.bus());
        }
        lift(self.interface.write_multi_data(data))?;
        proof {
            interface::lemma_prefix_here(orig, self.bus());
        }
        lift(self.interface.write_command(command::IT8951_TCON_LD_IMG_END))?;
        proof {
            assert(self.bus() =~= orig + load_image_ops(
                target_mem_addr,
                image_settings.spec_arg(),
                data@,
            ));
            interface::lemma_prefix_here(orig, self.bus());
        }
        Ok(())
    }

    /// Read `count` words from the given address in the controller's ram;
    /// the values are whatever the controller returned.
    pub fn memory_burst_read(&mut self, memory_address: u32, count: u16) -> (r: Result<
        Vec<u16>,
        Error,
    >)
        requires
            old(self).wf(),
        ensures
            final(self).wf(),
            final(self).state == old(self).state,
            final(self).same_settings(old(self)),
            r is Err ==> (r.unwrap_err() is NotInitialized || r.unwrap_err() is Interface),
            r == Err::<Vec<u16>, Error>(Error::NotInitialized) <==> old(self).state
                != OperationalMode::Active,
            old(self).state != OperationalMode::Active ==> final(self).bus() == old(self).bus(),
            old(self).bus().is_prefix_of(final(self).bus()),
            r is Ok ==> r.unwrap()@.len() == count && final(self).bus() == old(self).bus()
                + burst_read_ops(memory_address, count),
    {
        if !matches!(self.state, OperationalMode::Active) {
            proof {
                interface::lemma_prefix_refl(self.bus());
            }
            return Err(Error::NotInitialized);
        }
        let ghost orig = self.bus();
        let mut args: Vec<u16> = Vec::new();
        args.push((memory_address & 0xFFFF) as u16);
        args.push((memory_address >> 16) as u16);
        args.push(count);
        args.push(0);
        proof {
            assert(memory_address >> 16 == memory_address / 0x10000) by (bit_vector);
            assert(memory_address & 0xFFFF == memory_address % 0x10000) by (bit_vector);
            interface::lemma_prefix_here(orig, self.bus());
        }
        lift(
            self.interface.write_command_with_args(
                command::IT8951_TCON_MEM_BST_RD_T,
                args.as_slice(),
            ),
        )?;
        proof {
            interface::lemma_prefix_here(orig, self.bus());
        }
        lift(self.interface.write_command(command::IT8951_TCON_MEM_BST_RD_S))?;
        proof {
            interface::lemma_prefix_here(orig, self.bus());
        }
        let data = lift(self.interface.read_multi_data(count))?;
        proof {
            interface::lemma_prefix_here(orig, self.bus());
        }
        lift(self.interface.write_command(command::IT8951_TCON_MEM_BST_END))?;
        proof {
            assert(self.bus() =~= orig + burst_read_ops(memory_address, count));
            interface::lemma_prefix_here(orig, self.bus());
        }
        Ok(data)
    }

    /// Write a payload to the given address in the controller's ram. A
    /// payload that is not whole 16-bit words fails with the codec's
    /// alignment error.
    pub fn memory_burst_write(&mut self, memory_address: u32, data: &[u8]) -> (r: Result<
        (),
        Error,
    >)
        requires
            old(self).wf(),
            data@.len() <= u32::MAX,
        ensures
            final(self).wf(),
            final(self).state == old(self).state,
            final(self).same_settings(old(self)),
            r is Err ==> (r.unwrap_err() is NotInitialized || r.unwrap_err() is Interface),
            r == Err::<(), Error>(Error::NotInitialized) <==> old(self).state
                != OperationalMode::Active,
            old(self).state != OperationalMode::Active ==> final(self).bus() == old(self).bus(),
            old(self).bus().is_prefix_of(final(self).bus()),
            data@.len() % 2 != 0 ==> r is Err,
            r is Ok ==> final(self).bus() == old(self).bus() + burst_write_ops(
                memory_address,
                data@,
            ),
    {
        if !matches!(self.state, OperationalMode::Active) {
            proof {
                interface::lemma_prefix_refl(self.bus());
            }
            return Err(Error::NotInitialized);
        }
        let ghost orig = self.bus();
        let len: usize = data.len();
        let mut args: Vec<u16> = Vec::new();
        args.push((memory_address & 0xFFFF) as u16);
        args.push((memory_address >> 16) as u16);
        args.push((len & 0xFFFF) as u16);
        args.push(((len >> 16) & 0xFFFF) as u16);
        proof {
            assert(memory_address >> 16 == memory_address / 0x10000) by (bit_vector);
            assert(memory_address & 0xFFFF == memory_address % 0x10000) by (bit_vector);
            let l = len as u64;
            assert(l & 0xFFFF == l % 0x10000) by (bit_vector);
            assert((l >> 16) & 0xFFFF == (l / 0x10000) % 0x10000) by (bit_vector);
            interface::lemma_prefix_here(orig, self.bus());
        }
        lift(
            self.interface.write_command_with_args(command::IT8951_TCON_MEM_BST_WR, args.as_slice()),
        )?;
        proof {
            interface::lemma_prefix_here(orig, self.bus());
        }
        lift(self.interface.write_multi_data(data))?;
        proof {
            interface::lemma_prefix_here(orig, self.bus());
        }
        lift(self.interface.write_command(command::IT8951_TCON_MEM_BST_END))?;
        proof {
            assert(self.bus() =~= orig + burst_write_ops(memory_address, data@));
            interface::lemma_prefix_here(orig, self.bus());
        }
        Ok(())
    }
}

/// `n` bytes, every one the fill value.
pub open spec fn fill_bytes(n: int, fill: u8) -> Seq<u8> {
    Seq::new(n as nat, |i: int| fill)
}

/// The image load transactions of a solid fill over a clipped rectangle
/// (`x`, `y`, `w` at full height `h`), starting at row `row`: chunks of
/// `step` rows top to bottom, the last chunk taking whatever remains, each
/// loaded with a buffer of `bpr` fill bytes per row.
pub open spec fn fill_chunk_ops(
    addr: u32,
    arg: u16,
    x: u16,
    y: u16,
    w: u16,
    h: int,
    row: int,
    step: int,
    fill: u8,
    bpr: int,
) -> Seq<interface::BusOp>
    decreases h - row,
    when step >= 1
{
    if row >= h {
        Seq::empty()
    } else {
        let hi = if step <= h - row {
            step
        } else {
            h - row
        };
        load_image_area_ops(
            addr,
            arg,
            AreaImgInfo {
                area_x: x,
                area_y: (y + row) as u16,
                area_w: w,
                area_h: hi as u16,
            },
            fill_bytes(bpr * hi, fill),
        ) + fill_chunk_ops(addr, arg, x, y, w, h, row + hi, step, fill, bpr)
    }
}

/// The whole bus trace of a solid fill of `clip` with `color`, staged
/// through buffers of at most `max_buffer` bytes.
pub open spec fn fill_solid_ops(
    addr: u32,
    arg: u16,
    clip: Rect,
    color: u8,
    max_buffer: int,
) -> Seq<interface::BusOp> {
    let bpr = crate::area_serializer::spec_bytes_per_row(clip.x as int, clip.width as int);
    let step = if max_buffer / bpr <= clip.height as int {
        max_buffer / bpr
    } else {
        clip.height as int
    };
    fill_chunk_ops(
        addr,
        arg,
        clip.x as u16,
        clip.y as u16,
        clip.width as u16,
        clip.height as int,
        0,
        step,
        (color * 16 + color) as u8,
        bpr,
    )
}

impl<I: interface::IT8951Interface> IT8951<I> {
    /// The panel's bounding box in logical (application) space.
    pub open spec fn spec_bounding_box(&self) -> Rect {
        Rect {
            x: 0,
            y: 0,
            width: self.spec_size().0 as u32,
            height: self.spec_size().1 as u32,
        }
    }

    /// Fill a rectangle with one 4-bit gray value. The rectangle is clipped
    /// to the panel first; a fully clipped-off rectangle is a no-op. The
    /// fill is staged through the configured buffer size and loaded chunk by
    /// chunk into the frame buffer.
    #[verifier::loop_isolation(false)]
    pub fn fill_solid(&mut self, area: &Rect, color: u8) -> (r: Result<(), Error>)
        requires
            old(self).wf(),
            color < 16,
            old(self).config.max_buffer_size % 2 == 0,
            area.width <= i32::MAX,
            area.height <= i32::MAX,
            area.right() <= i32::MAX,
            area.bottom() <= i32::MAX,
        ensures
            final(self).wf(),
            final(self).state == old(self).state,
            final(self).same_settings(old(self)),
            r is Err ==> (r.unwrap_err() is NotInitialized || r.unwrap_err() is Interface
                || r.unwrap_err() is InsufficientBufferCapacity),
            r == Err::<(), Error>(Error::NotInitialized) <==> old(self).state
                != OperationalMode::Active,
            old(self).state != OperationalMode::Active ==> final(self).bus() == old(self).bus(),
            old(self).bus().is_prefix_of(final(self).bus()),
            old(self).state == OperationalMode::Active ==> {
                let clip = Rect::spec_intersection(*area, old(self).spec_bounding_box());
                &&& (clip.spec_is_empty() ==> r is Ok && final(self).bus() == old(self).bus())
                &&& (r == Err::<(), Error>(Error::InsufficientBufferCapacity) <==> (
                    !clip.spec_is_empty() && (old(self).config.max_buffer_size as int)
                        < crate::area_serializer::spec_bytes_per_row(
                        clip.x as int,
                        clip.width as int,
                    )))
                &&& ((r is Ok && !clip.spec_is_empty()) ==> final(self).bus() == old(self).bus()
                    + fill_solid_ops(
                    old(self).dev_info.unwrap().memory_address,
                    old(self).memory_converter_settings.spec_arg(),
                    clip,
                    color,
                    old(self).config.max_buffer_size as int,
                ))
            },
    {
        proof {
            interface::lemma_prefix_refl(self.bus());
        }
        if !matches!(self.state, OperationalMode::Active) {
            return Err(Error::NotInitialized);
        }
        let (width, height) = self.size();
        let bounding_box = Rect { x: 0, y: 0, width: width as u32, height: height as u32 };
        // only update visible content
        let clip = area.intersection(&bounding_box);
        // if the area is zero sized, skip drawing
        if clip.is_zero_sized() {
            return Ok(());
        }
        let memory_address = self.dev_info.as_ref().unwrap().memory_address;
        let mut serializer = AreaSerializer::new(&clip, color, self.config.max_buffer_size)?;
        let ghost orig = self.bus();
        let ghost addr = memory_address;
        let ghost arg = self.memory_converter_settings.spec_arg();
        let ghost fullh = clip.height as int;
        let ghost step = serializer.rows_per_step as int;
        let ghost bpr = serializer.bytes_per_row as int;
        let ghost fill = serializer.fill;
        proof {
            assert(fill_solid_ops(
                addr,
                arg,
                clip,
                color,
                self.config.max_buffer_size as int,
            ) == fill_chunk_ops(
                addr,
                arg,
                clip.x as u16,
                clip.y as u16,
                clip.width as u16,
                fullh,
                0,
                step,
                fill,
                bpr,
            ));
        }
        while serializer.row < serializer.area_h
            invariant
                self.wf(),
                self.state == OperationalMode::Active,
                self.same_settings(old(self)),
                serializer.wf(),
                serializer.area_x == clip.x,
                serializer.area_y == clip.y,
                serializer.area_w == clip.width,
                serializer.area_h == fullh,
                serializer.rows_per_step == step,
                serializer.bytes_per_row == bpr,
                serializer.fill == fill,
                old(self).bus().is_prefix_of(self.bus()),
                self.bus() + fill_chunk_ops(
                    addr,
                    arg,
                    clip.x as u16,
                    clip.y as u16,
                    clip.width as u16,
                    fullh,
                    serializer.row as int,
                    step,
                    fill,
                    bpr,
                ) == orig + fill_chunk_ops(
                    addr,
                    arg,
                    clip.x as u16,
                    clip.y as u16,
                    clip.width as u16,
                    fullh,
                    0,
                    step,
                    fill,
                    bpr,
                ),
            decreases fullh - serializer.row,
        {
            let ghost row0 = serializer.row as int;
            match serializer.next_chunk() {
                None => {
                    proof {
                        assert(false);
                    }
                },
                Some((area_img_info, buffer)) => {
                    proof {
                        assert(buffer@ =~= fill_bytes(bpr * area_img_info.area_h as int, fill));
                    }
                    let ghost before = self.bus();
                    let mcs = self.memory_converter_settings;
                    self.load_image_area(
                        memory_address,
                        mcs,
                        &area_img_info,
                        buffer.as_slice(),
                    )?;
                    proof {
                        let ghost hi = if step <= fullh - row0 {
                            step
                        } else {
                            fullh - row0
                        };
                        assert(area_img_info.area_h as int == hi);
                        assert(fill_chunk_ops(
                            addr,
                            arg,
                            clip.x as u16,
                            clip.y as u16,
                            clip.width as u16,
                            fullh,
                            row0,
                            step,
                            fill,
                            bpr,
                        ) == load_image_area_ops(
                            addr,
                            arg,
                            area_img_info,
                            fill_bytes(bpr * hi, fill),
                        ) + fill_chunk_ops(
                            addr,
                            arg,
                            clip.x as u16,
                            clip.y as u16,
                            clip.width as u16,
                            fullh,
                            row0 + hi,
                            step,
                            fill,
                            bpr,
                        ));
                        assert(self.bus() =~= before + load_image_area_ops(
                            addr,
                            arg,
                            area_img_info,
                            fill_bytes(bpr * hi, fill),
                        ));
                        interface::lemma_prefix_extend(
                            before,
                            load_image_area_ops(addr, arg, area_img_info, fill_bytes(bpr * hi, fill)),
                        );
                        assert(self.bus() + fill_chunk_ops(
                            addr,
                            arg,
                            clip.x as u16,
                            clip.y as u16,
                            clip.width as u16,
                            fullh,
                            serializer.row as int,
                            step,
                            fill,
                            bpr,
                        ) =~= orig + fill_chunk_ops(
                            addr,
                            arg,
                            clip.x as u16,
                            clip.y as u16,
                            clip.width as u16,
                            fullh,
                            0,
                            step,
                            fill,
                            bpr,
                        ));
                    }
                },
            }
        }
        proof {
            assert(fill_chunk_ops(
                addr,
                arg,
                clip.x as u16,
                clip.y as u16,
                clip.width as u16,
                fullh,
                serializer.row as int,
                step,
                fill,
                bpr,
            ) =~= Seq::<interface::BusOp>::empty());
            assert(self.bus() + Seq::<interface::BusOp>::empty() =~= self.bus());
        }
        Ok(())
    }

    /// Fill the whole display with one 4-bit gray value.
    pub fn clear(&mut self, color: u8) -> (r: Result<(), Error>)
        requires
            old(self).wf(),
            color < 16,
            old(self).config.max_buffer_size % 2 == 0,
        ensures
            final(self).wf(),
            final(self).state == old(self).state,
            final(self).same_settings(old(self)),
            r is Err ==> (r.unwrap_err() is NotInitialized || r.unwrap_err() is Interface
                || r.unwrap_err() is InsufficientBufferCapacity),
            r == Err::<(), Error>(Error::NotInitialized) <==> old(self).state
                != OperationalMode::Active,
            old(self).state != OperationalMode::Active ==> final(self).bus() == old(self).bus(),
            old(self).bus().is_prefix_of(final(self).bus()),
            old(self).state == OperationalMode::Active ==> {
                let clip = old(self).spec_bounding_box();
                &&& (clip.spec_is_empty() ==> r is Ok && final(self).bus() == old(self).bus())
                &&& (r == Err::<(), Error>(Error::InsufficientBufferCapacity) <==> (
                    !clip.spec_is_empty() && (old(self).config.max_buffer_size as int)
                        < crate::area_serializer::spec_bytes_per_row(
                        clip.x as int,
                        clip.width as int,
                    )))
                &&& ((r is Ok && !clip.spec_is_empty()) ==> final(self).bus() == old(self).bus()
                    + fill_solid_ops(
                    old(self).dev_info.unwrap().memory_address,
                    old(self).memory_converter_settings.spec_arg(),
                    clip,
                    color,
                    old(self).config.max_buffer_size as int,
                ))
            },
    {
        proof {
            interface::lemma_prefix_refl(self.bus());
        }
        if !matches!(self.state, OperationalMode::Active) {
            return Err(Error::NotInitialized);
        }
        let (width, height) = self.size();
        let full = Rect { x: 0, y: 0, width: width as u32, height: height as u32 };
        proof {
            if !full.spec_is_empty() {
                assert(Rect::spec_intersection(full, old(self).spec_bounding_box()) == full);
            } else {
                assert(Rect::spec_intersection(full, old(self).spec_bounding_box())
                    == (Rect { x: 0, y: 0, width: 0, height: 0 }));
            }
        }
        self.fill_solid(&full, color)
    }
}

/// `n` packed bytes of the supplied pixel sequence, starting at
/// (area-relative) row `row0`, `bpr` bytes per row.
pub open spec fn chunk_bytes(
    pixels: Seq<Px>,
    x: u16,
    w: u16,
    row0: int,
    bpr: int,
    n: int,
) -> Seq<u8> {
    Seq::new(
        n as nat,
        |j: int| pixel_serializer::spec_chunk_byte(pixels, x as int, w as int, row0, bpr, j),
    )
}

/// The image load transactions of a pixel-sequence fill over a clipped
/// rectangle, starting at (relative) row `row`: chunks of `step` fully
/// covered rows top to bottom, then, if the sequence stops mid-row, one
/// final chunk of that single row narrowed to the supplied pixel count.
pub open spec fn px_chunk_ops(
    addr: u32,
    arg: u16,
    x: u16,
    y: u16,
    w: u16,
    pixels: Seq<Px>,
    step: int,
    bpr: int,
    row: int,
) -> Seq<interface::BusOp>
    decreases (pixels.len() as int / w as int) + 1 - row,
    when w >= 1 && step >= 1 && row >= 0
{
    let full = pixels.len() as int / w as int;
    let part = pixels.len() as int % w as int;
    if row < full {
        let hi = if step <= full - row {
            step
        } else {
            full - row
        };
        load_image_area_ops(
            addr,
            arg,
            AreaImgInfo { area_x: x, area_y: (y + row) as u16, area_w: w, area_h: hi as u16 },
            chunk_bytes(pixels, x, w, row, bpr, bpr * hi),
        ) + px_chunk_ops(addr, arg, x, y, w, pixels, step, bpr, row + hi)
    } else if row == full && part > 0 {
        let bpr_p = 2 * crate::serialization_helper::spec_entries_per_row(x as int, part);
        load_image_area_ops(
            addr,
            arg,
            AreaImgInfo {
                area_x: x,
                area_y: (y + row) as u16,
                area_w: part as u16,
                area_h: 1,
            },
            chunk_bytes(pixels, x, w, row, bpr_p, bpr_p),
        ) + px_chunk_ops(addr, arg, x, y, w, pixels, step, bpr, row + 1)
    } else {
        Seq::empty()
    }
}

/// The whole bus trace of a pixel-sequence fill of `clip`, staged through
/// buffers of at most `max_buffer` bytes.
pub open spec fn fill_contiguous_ops(
    addr: u32,
    arg: u16,
    clip: Rect,
    pixels: Seq<Px>,
    max_buffer: int,
) -> Seq<interface::BusOp> {
    let bpr = crate::area_serializer::spec_bytes_per_row(clip.x as int, clip.width as int);
    let step = if max_buffer / bpr <= clip.height as int {
        max_buffer / bpr
    } else {
        clip.height as int
    };
    px_chunk_ops(
        addr,
        arg,
        clip.x as u16,
        clip.y as u16,
        clip.width as u16,
        pixels,
        step,
        bpr,
        0,
    )
}

impl<I: interface::IT8951Interface> IT8951<I> {
    /// Fill a rectangle with one 4-bit gray value per covered point, in
    /// row-major order over the *requested* rectangle. Points outside the
    /// panel are dropped (their colors are still consumed); if the colors
    /// run out, the fill stops early after a final narrowed chunk.
    #[verifier::loop_isolation(false)]
    #[verifier::rlimit(40)]
    pub fn fill_contiguous(&mut self, area: &Rect, colors: &Vec<u8>) -> (r: Result<(), Error>)
        requires
            old(self).wf(),
            old(self).config.max_buffer_size % 2 == 0,
            area.width <= i32::MAX,
            area.height <= i32::MAX,
            area.right() <= i32::MAX,
            area.bottom() <= i32::MAX,
            colors@.len() <= u32::MAX,
            forall|i: int| 0 <= i < colors@.len() ==> colors@[i] < 16,
        ensures
            final(self).wf(),
            final(self).state == old(self).state,
            final(self).same_settings(old(self)),
            r is Err ==> (r.unwrap_err() is NotInitialized || r.unwrap_err() is Interface
                || r.unwrap_err() is InsufficientBufferCapacity),
            r == Err::<(), Error>(Error::NotInitialized) <==> old(self).state
                != OperationalMode::Active,
            old(self).state != OperationalMode::Active ==> final(self).bus() == old(self).bus(),
            old(self).bus().is_prefix_of(final(self).bus()),
            old(self).state == OperationalMode::Active ==> {
                let clip = Rect::spec_intersection(*area, old(self).spec_bounding_box());
                &&& (clip.spec_is_empty() ==> r is Ok && final(self).bus() == old(self).bus())
                &&& (r == Err::<(), Error>(Error::InsufficientBufferCapacity) <==> (
                    !clip.spec_is_empty() && (old(self).config.max_buffer_size as int)
                        < crate::area_serializer::spec_bytes_per_row(
                        clip.x as int,
                        clip.width as int,
                    )))
                &&& ((r is Ok && !clip.spec_is_empty()) ==> exists|pixels: Seq<Px>|
                    pixel_serializer::convert_post(
                        *area,
                        old(self).spec_bounding_box(),
                        colors@,
                        pixels,
                    ) && final(self).bus() == old(self).bus() + fill_contiguous_ops(
                        old(self).dev_info.unwrap().memory_address,
                        old(self).memory_converter_settings.spec_arg(),
                        clip,
                        pixels,
                        old(self).config.max_buffer_size as int,
                    ))
            },
    {
        proof {
            interface::lemma_prefix_refl(self.bus());
        }
        if !matches!(self.state, OperationalMode::Active) {
            return Err(Error::NotInitialized);
        }
        let (width, height) = self.size();
        let bounding_box = Rect { x: 0, y: 0, width: width as u32, height: height as u32 };
        let pixels = convert_color_to_pixel_iterator(area, &bounding_box, colors);
        let clip = area.intersection(&bounding_box);
        if clip.is_zero_sized() {
            return Ok(());
        }
        let memory_address = self.dev_info.as_ref().unwrap().memory_address;
        let ghost gpixels = pixels@;
        let pixel_count: usize = pixels.len();
        let mut serializer = PixelSerializer::new(&clip, pixels, self.config.max_buffer_size)?;
        proof {
            assert(pixel_count <= 0xFFFF * 0xFFFF) by (nonlinear_arith)
                requires
                    pixel_count <= clip.width * clip.height,
                    0 <= clip.width <= 0xFFFF,
                    0 <= clip.height <= 0xFFFF,
            ;
        }
        let full_rows: usize = pixel_count / clip.width as usize;
        let partial: usize = pixel_count % clip.width as usize;
        let rows_limit: usize = full_rows + if partial > 0 {
            1
        } else {
            0
        };
        let ghost orig = self.bus();
        let ghost addr = memory_address;
        let ghost arg = self.memory_converter_settings.spec_arg();
        let ghost step = serializer.rows_per_step as int;
        let ghost bpr = serializer.bytes_per_row as int;
        proof {
            assert(fill_contiguous_ops(
                addr,
                arg,
                clip,
                gpixels,
                self.config.max_buffer_size as int,
            ) == px_chunk_ops(
                addr,
                arg,
                clip.x as u16,
                clip.y as u16,
                clip.width as u16,
                gpixels,
                step,
                bpr,
                0,
            ));
        }
        while (serializer.row as usize) < rows_limit
            invariant
                self.wf(),
                self.state == OperationalMode::Active,
                self.same_settings(old(self)),
                serializer.wf(),
                serializer.area_x == clip.x,
                serializer.area_y == clip.y,
                serializer.area_w == clip.width,
                serializer.area_h == clip.height,
                serializer.pixels@ == gpixels,
                serializer.rows_per_step == step,
                serializer.bytes_per_row == bpr,
                rows_limit == serializer.rows_limit(),
                old(self).bus().is_prefix_of(self.bus()),
                self.bus() + px_chunk_ops(
                    addr,
                    arg,
                    clip.x as u16,
                    clip.y as u16,
                    clip.width as u16,
                    gpixels,
                    step,
                    bpr,
                    serializer.row as int,
                ) == orig + px_chunk_ops(
                    addr,
                    arg,
                    clip.x as u16,
                    clip.y as u16,
                    clip.width as u16,
                    gpixels,
                    step,
                    bpr,
                    0,
                ),
            decreases rows_limit - serializer.row,
        {
            let ghost row0 = serializer.row as int;
            match serializer.next_chunk() {
                None => {
                    proof {
                        assert(false);
                    }
                },
                Some((area_img_info, buffer)) => {
                    proof {
                        let full = gpixels.len() as int / clip.width as int;
                        if row0 < full {
                            let hi = if step <= full - row0 {
                                step
                            } else {
                                full - row0
                            };
                            assert(crate::area_serializer::chunk_heights(full - row0, step)[0] == hi);
                            assert(area_img_info.area_h as int == hi);
                            assert(buffer@ =~= chunk_bytes(
                                gpixels,
                                clip.x as u16,
                                clip.width as u16,
                                row0,
                                bpr,
                                bpr * hi,
                            ));
                        } else {
                            let part = gpixels.len() as int % clip.width as int;
                            let bpr_p = 2 * crate::serialization_helper::spec_entries_per_row(
                                clip.x as int,
                                part,
                            );
                            assert(buffer@ =~= chunk_bytes(
                                gpixels,
                                clip.x as u16,
                                clip.width as u16,
                                row0,
                                bpr_p,
                                bpr_p,
                            ));
                        }
                    }
                    let ghost before = self.bus();
                    let mcs = self.memory_converter_settings;
                    self.load_image_area(
                        memory_address,
                        mcs,
                        &area_img_info,
                        buffer.as_slice(),
                    )?;
                    proof {
                        assert(self.bus() =~= before + load_image_area_ops(
                            memory_address,
                            arg,
                            area_img_info,
                            buffer@,
                        ));
                        interface::lemma_prefix_extend(
                            before,
                            load_image_area_ops(memory_address, arg, area_img_info, buffer@),
                        );
                        assert(self.bus() + px_chunk_ops(
                            addr,
                            arg,
                            clip.x as u16,
                            clip.y as u16,
                            clip.width as u16,
                            gpixels,
                            step,
                            bpr,
                            serializer.row as int,
                        ) =~= orig + px_chunk_ops(
                            addr,
                            arg,
                            clip.x as u16,
                            clip.y as u16,
                            clip.width as u16,
                            gpixels,
                            step,
                            bpr,
                            0,
                        ));
                    }
                },
            }
        }
        proof {
            assert(px_chunk_ops(
                addr,
                arg,
                clip.x as u16,
                clip.y as u16,
                clip.width as u16,
                gpixels,
                step,
                bpr,
                serializer.row as int,
            ) =~= Seq::<interface::BusOp>::empty());
            assert(self.bus() + Seq::<interface::BusOp>::empty() =~= self.bus());
        }
        Ok(())
    }
}

/// The transactions of drawing one positioned pixel: a 1-by-1 area load of
/// its enclosing word when the point lies on the panel, nothing otherwise.
pub open spec fn draw_pixel_ops(
    addr: u32,
    arg: u16,
    width: u16,
    height: u16,
    p: (i32, i32, u8),
) -> Seq<interface::BusOp> {
    if 0 <= p.0 < width && 0 <= p.1 < height {
        let single = seq![Px { x: p.0 as u16, y: p.1 as u16, color: p.2 }];
        load_image_area_ops(
            addr,
            arg,
            AreaImgInfo { area_x: p.0 as u16, area_y: p.1 as u16, area_w: 1, area_h: 1 },
            chunk_bytes(single, p.0 as u16, 1, 0, 2, 2),
        )
    } else {
        Seq::empty()
    }
}

/// The transactions of drawing a sequence of positioned pixels, in order.
pub open spec fn draw_iter_ops(
    addr: u32,
    arg: u16,
    width: u16,
    height: u16,
    pixels: Seq<(i32, i32, u8)>,
) -> Seq<interface::BusOp>
    decreases pixels.len(),
{
    if pixels.len() == 0 {
        Seq::empty()
    } else {
        draw_pixel_ops(addr, arg, width, height, pixels[0]) + draw_iter_ops(
            addr,
            arg,
            width,
            height,
            pixels.drop_first(),
        )
    }
}

impl<I: interface::IT8951Interface> IT8951<I> {
    /// Draw single pixels, each given as `(x, y, gray value)` in logical
    /// coordinates. Points outside the panel are dropped. Each drawn pixel
    /// is loaded as the 1-by-1 area of its enclosing alignment word, whose
    /// other pixels are written as zero.
    #[verifier::loop_isolation(false)]
    pub fn draw_iter(&mut self, pixels: &Vec<(i32, i32, u8)>) -> (r: Result<(), Error>)
        requires
            old(self).wf(),
            forall|i: int| 0 <= i < pixels@.len() ==> (#[trigger] pixels@[i]).2 < 16,
        ensures
            final(self).wf(),
            final(self).state == old(self).state,
            final(self).same_settings(old(self)),
            r is Err ==> (r.unwrap_err() is NotInitialized || r.unwrap_err() is Interface),
            r == Err::<(), Error>(Error::NotInitialized) <==> old(self).state
                != OperationalMode::Active,
            old(self).state != OperationalMode::Active ==> final(self).bus() == old(self).bus(),
            old(self).bus().is_prefix_of(final(self).bus()),
            r is Ok ==> final(self).bus() == old(self).bus() + draw_iter_ops(
                old(self).dev_info.unwrap().memory_address,
                old(self).memory_converter_settings.spec_arg(),
                old(self).spec_size().0,
                old(self).spec_size().1,
                pixels@,
            ),
    {
        proof {
            interface::lemma_prefix_refl(self.bus());
        }
        if !matches!(self.state, OperationalMode::Active) {
            return Err(Error::NotInitialized);
        }
        let (width, height) = self.size();
        let memory_address = self.dev_info.as_ref().unwrap().memory_address;
        let ghost orig = self.bus();
        let ghost addr = memory_address;
        let ghost arg = self.memory_converter_settings.spec_arg();
        let mut i: usize = 0;
        proof {
            assert(pixels@.skip(0) =~= pixels@);
        }
        while i < pixels.len()
            invariant
                i <= pixels@.len(),
                self.wf(),
                self.state == OperationalMode::Active,
                self.same_settings(old(self)),
                old(self).bus().is_prefix_of(self.bus()),
                self.bus() + draw_iter_ops(addr, arg, width, height, pixels@.skip(i as int))
                    == orig + draw_iter_ops(addr, arg, width, height, pixels@),
            decreases pixels@.len() - i,
        {
            let ghost rest = pixels@.skip(i as int);
            proof {
                assert(rest[0] == pixels@[i as int]);
                assert(rest.drop_first() =~= pixels@.skip(i as int + 1));
            }
            let (x, y, color) = pixels[i];
            if x >= 0 && x < width as i32 && y >= 0 && y < height as i32 {
                let xu: u16 = x as u16;
                let yu: u16 = y as u16;
                let ghost single = seq![Px { x: xu, y: yu, color }];
                let mut data: Vec<u8> = Vec::new();
                // little endian word layout: the byte for pixels 2 and 3 of
                // the alignment word comes first
                let rem: u16 = xu % 4;
                if rem == 0 {
                    data.push(0x00);
                    data.push(color);
                } else if rem == 1 {
                    data.push(0x00);
                    data.push(color << 4);
                } else if rem == 2 {
                    data.push(color);
                    data.push(0x00);
                } else {
                    data.push(color << 4);
                    data.push(0x00);
                }
                proof {
                    assert(color << 4 == color * 16) by (bit_vector)
                        requires
                            color < 16,
                    ;
                    assert(data@ =~= chunk_bytes(single, xu, 1, 0, 2, 2));
                }
                let mcs = self.memory_converter_settings;
                let info = AreaImgInfo { area_x: xu, area_y: yu, area_w: 1, area_h: 1 };
                let ghost before = self.bus();
                self.load_image_area(memory_address, mcs, &info, data.as_slice())?;
                proof {
                    assert(self.bus() =~= before + load_image_area_ops(
                        memory_address,
                        arg,
                        info,
                        data@,
                    ));
                    interface::lemma_prefix_extend(
                        before,
                        load_image_area_ops(memory_address, arg, info, data@),
                    );
                    assert(draw_iter_ops(addr, arg, width, height, rest) == draw_pixel_ops(
                        addr,
                        arg,
                        width,
                        height,
                        pixels@[i as int],
                    ) + draw_iter_ops(addr, arg, width, height, pixels@.skip(i as int + 1)));
                    assert(self.bus() + draw_iter_ops(
                        addr,
                        arg,
                        width,
                        height,
                        pixels@.skip(i as int + 1),
                    ) =~= orig + draw_iter_ops(addr, arg, width, height, pixels@));
                }
            } else {
                proof {
                    assert(draw_pixel_ops(addr, arg, width, height, pixels@[i as int])
                        =~= Seq::<interface::BusOp>::empty());
                    assert(draw_iter_ops(addr, arg, width, height, rest)
                        =~= draw_iter_ops(addr, arg, width, height, pixels@.skip(i as int + 1)));
                }
            }
            i = i + 1;
        }
        proof {
            assert(pixels@.skip(pixels@.len() as int) =~= Seq::<(i32, i32, u8)>::empty());
            assert(self.bus() + Seq::<interface::BusOp>::empty() =~= self.bus());
        }
        Ok(())
    }

    /// Clear the whole frame buffer to white and refresh the display with
    /// the `Init` waveform.
    pub fn reset(&mut self) -> (r: Result<(), Error>)
        requires
            old(self).wf(),
            old(self).config.max_buffer_size % 2 == 0,
        ensures
            final(self).wf(),
            final(self).state == old(self).state,
            final(self).same_settings(old(self)),
            r is Err ==> (r.unwrap_err() is NotInitialized || r.unwrap_err() is Interface
                || r.unwrap_err() is InsufficientBufferCapacity || r.unwrap_err()
                is DisplayEngineTimeout),
            r == Err::<(), Error>(Error::NotInitialized) <==> old(self).state
                != OperationalMode::Active,
            old(self).state != OperationalMode::Active ==> final(self).bus() == old(self).bus(),
            old(self).bus().is_prefix_of(final(self).bus()),
            (r == Err::<(), Error>(Error::DisplayEngineTimeout) && !old(
                self,
            ).spec_bounding_box().spec_is_empty()) ==> final(self).bus() == old(self).bus()
                + fill_solid_ops(
                old(self).dev_info.unwrap().memory_address,
                old(self).memory_converter_settings.spec_arg(),
                old(self).spec_bounding_box(),
                0xF,
                old(self).config.max_buffer_size as int,
            ) + poll_ops(old(self).config.timeout_display_engine as int + 1),
            (r == Err::<(), Error>(Error::DisplayEngineTimeout) && old(
                self,
            ).spec_bounding_box().spec_is_empty()) ==> final(self).bus() == old(self).bus()
                + poll_ops(old(self).config.timeout_display_engine as int + 1),
            (r is Ok && old(self).state == OperationalMode::Active && !old(
                self,
            ).spec_bounding_box().spec_is_empty()) ==> exists|n: int|
                1 <= n <= old(self).config.timeout_display_engine + 1 && final(self).bus() == old(
                    self,
                ).bus() + fill_solid_ops(
                    old(self).dev_info.unwrap().memory_address,
                    old(self).memory_converter_settings.spec_arg(),
                    old(self).spec_bounding_box(),
                    0xF,
                    old(self).config.max_buffer_size as int,
                ) + poll_ops(n) + interface::command_with_args_ops(
                    command::USDEF_I80_CMD_DPY_AREA,
                    ({
                        let rot = spec_rotate(
                            old(self).memory_converter_settings.rotation,
                            old(self).panel_width(),
                            old(self).panel_height(),
                            AreaImgInfo {
                                area_x: 0,
                                area_y: 0,
                                area_w: old(self).spec_size().0,
                                area_h: old(self).spec_size().1,
                            },
                        );
                        seq![
                            rot.area_x,
                            rot.area_y,
                            rot.area_w,
                            rot.area_h,
                            WaveformMode::Init.spec_value(),
                        ]
                    }),
                ),
    {
        if !matches!(self.state, OperationalMode::Active) {
            proof {
                interface::lemma_prefix_refl(self.bus());
            }
            return Err(Error::NotInitialized);
        }
        let ghost orig = self.bus();
        proof {
            interface::lemma_prefix_refl(orig);
        }
        self.clear(0xF)?;
        let ghost cleared = self.bus();
        proof {
            interface::lemma_prefix_here(orig, self.bus());
        }
        self.display(WaveformMode::Init)?;
        proof {
            interface::lemma_prefix_here(orig, self.bus());
            if !old(self).spec_bounding_box().spec_is_empty() {
                let n = choose|n: int|
                    1 <= n <= old(self).config.timeout_display_engine + 1 && self.bus() == cleared
                        + poll_ops(n) + interface::command_with_args_ops(
                        command::USDEF_I80_CMD_DPY_AREA,
                        ({
                            let rot = spec_rotate(
                                old(self).memory_converter_settings.rotation,
                                old(self).panel_width(),
                                old(self).panel_height(),
                                AreaImgInfo {
                                    area_x: 0,
                                    area_y: 0,
                                    area_w: old(self).spec_size().0,
                                    area_h: old(self).spec_size().1,
                                },
                            );
                            seq![
                                rot.area_x,
                                rot.area_y,
                                rot.area_w,
                                rot.area_h,
                                WaveformMode::Init.spec_value(),
                            ]
                        }),
                    );
                assert(self.bus() =~= orig + fill_solid_ops(
                    old(self).dev_info.unwrap().memory_address,
                    old(self).memory_converter_settings.spec_arg(),
                    old(self).spec_bounding_box(),
                    0xF,
                    old(self).config.max_buffer_size as int,
                ) + poll_ops(n) + interface::command_with_args_ops(
                    command::USDEF_I80_CMD_DPY_AREA,
                    ({
                        let rot = spec_rotate(
                            old(self).memory_converter_settings.rotation,
                            old(self).panel_width(),
                            old(self).panel_height(),
                            AreaImgInfo {
                                area_x: 0,
                                area_y: 0,
                                area_w: old(self).spec_size().0,
                                area_h: old(self).spec_size().1,
                            },
                        );
                        seq![
                            rot.area_x,
                            rot.area_y,
                            rot.area_w,
                            rot.area_h,
                            WaveformMode::Init.spec_value(),
                        ]
                    }),
                ));
            }
        }
        Ok(())
    }
}

} // verus!

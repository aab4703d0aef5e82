use vstd::prelude::*;
use crate::ram::RAMConfig;

verus! {

/// Which behaviour table the loader applies: the classic interpreter's
/// defaults, or exactly what the file says.
#[derive(PartialEq, Eq, Structural, Clone, Copy, Debug)]
pub enum Preset {
    CHIP8,
    Custom,
}

/// When the presenter is told to redraw: after every change to the
/// framebuffer, or at a fixed frequency.
#[derive(PartialEq, Eq, Structural, Clone, Copy, Debug)]
pub enum RenderOccasion {
    Changes,
    Frequency,
}

/// The shape of the tone the sound timer drives.
#[derive(PartialEq, Eq, Structural, Clone, Copy, Debug)]
pub enum ToneWaveform {
    Sine,
    Square,
    Triangle,
    Sawtooth,
}

/// The interpreter's behaviour switches: the historical quirks, the
/// program-counter and index-register overflow policies, and the seed used
/// when randomness is to be reproducible. The instruction pace is a plain
/// frequency and stays with the host's rate limiters.
#[derive(Clone, Copy, Debug)]
pub struct CPUConfig {
    pub reset_flag_for_bitwise_operations: bool,
    pub use_new_shift_instruction: bool,
    pub use_new_jump_instruction: bool,
    pub set_flag_for_index_overflow: bool,
    pub move_index_with_reads: bool,
    pub limit_to_one_draw_per_frame: bool,
    pub allow_program_counter_overflow: bool,
    pub use_true_randomness: bool,
    pub fake_randomness_seed: u64,
    pub allow_index_register_overflow: bool,
}

/// The display's shape, colors and wrap policies. The optional fixed render
/// frequency is a plain rate and stays with the host's rate limiters.
#[derive(Clone, Copy, Debug)]
pub struct GPUConfig {
    pub pixel_color_when_active: u32,
    pub pixel_color_when_inactive: u32,
    pub screen_border_color: u32,
    pub horizontal_resolution: usize,
    pub vertical_resolution: usize,
    pub wrap_sprite_positions: bool,
    pub wrap_sprite_pixels: bool,
    pub render_occasion: RenderOccasion,
}

/// The sound timer's switches that the core reads; its decrement rate and
/// the tone's pitch are plain rates and stay with the host.
#[derive(Clone, Copy, Debug)]
pub struct SoundTimerConfig {
    pub tone_waveform: ToneWaveform,
}

/// Everything the core is configured by.
pub struct Config {
    pub preset: Preset,
    pub cpu: CPUConfig,
    pub gpu: GPUConfig,
    pub ram: RAMConfig,
    pub sound_timer: SoundTimerConfig,
}

/// The classic interpreter's defaults: old shift and jump, no flag on index
/// overflow, the index register moving with bulk reads, one draw per frame,
/// the flag reset by bitwise operations, a 64 by 32 display that wraps
/// sprite positions but clips sprite pixels, redraws at a fixed frequency,
/// and a 16-slot stack.
pub open spec fn chip8_preset_applied(c: Config) -> Config {
    Config {
        cpu: CPUConfig {
            reset_flag_for_bitwise_operations: true,
            use_new_shift_instruction: false,
            use_new_jump_instruction: false,
            set_flag_for_index_overflow: false,
            move_index_with_reads: true,
            limit_to_one_draw_per_frame: true,
            ..c.cpu
        },
        gpu: GPUConfig {
            horizontal_resolution: 64,
            vertical_resolution: 32,
            wrap_sprite_positions: true,
            wrap_sprite_pixels: false,
            render_occasion: RenderOccasion::Frequency,
            ..c.gpu
        },
        ram: RAMConfig { stack_size: 16, ..c.ram },
        ..c
    }
}

/// Overwrite the switches with the classic interpreter's defaults.
pub fn enable_chip8_preset(config: &mut Config)
    ensures
        *final(config) == chip8_preset_applied(*old(config)),
{
    config.cpu.reset_flag_for_bitwise_operations = true;
    config.cpu.use_new_shift_instruction = false;
    config.cpu.use_new_jump_instruction = false;
    config.cpu.set_flag_for_index_overflow = false;
    config.cpu.move_index_with_reads = true;
    config.cpu.limit_to_one_draw_per_frame = true;
    config.gpu.horizontal_resolution = 64;
    config.gpu.vertical_resolution = 32;
    config.gpu.wrap_sprite_positions = true;
    config.gpu.wrap_sprite_pixels = false;
    config.gpu.render_occasion = RenderOccasion::Frequency;
    config.ram.stack_size = 16;
}

/// Apply the chosen preset to a configuration as read from the file.
pub fn generate_configs(config: Config) -> (r: Config)
    ensures
        r == if config.preset == Preset::CHIP8 {
            chip8_preset_applied(config)
        } else {
            config
        },
{
    let mut config = config;
    match config.preset {
        Preset::CHIP8 => enable_chip8_preset(&mut config),
        Preset::Custom => (),
    }
    config
}

} // verus!

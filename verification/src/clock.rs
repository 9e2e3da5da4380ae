//! PLL and DLL control of BZM2 ASICs through local registers: register
//! maps, divider and duty-cycle settings, status decoding and the decisions
//! of the lock-wait procedures.

use vstd::prelude::*;

use crate::uart::{Bzm2UartController, Bzm2UartError};

verus! {

pub const REF_DIVIDER: u8 = 1;
pub const POST2_DIVIDER: u8 = 0;

pub const LOCAL_REG_PLL_POSTDIV: u8 = 0x10;
pub const LOCAL_REG_PLL_FBDIV: u8 = 0x11;
pub const LOCAL_REG_PLL_ENABLE: u8 = 0x12;
pub const LOCAL_REG_PLL_MISC: u8 = 0x13;
pub const LOCAL_REG_PLL1_POSTDIV: u8 = 0x1a;
pub const LOCAL_REG_PLL1_FBDIV: u8 = 0x1b;
pub const LOCAL_REG_PLL1_ENABLE: u8 = 0x1c;
pub const LOCAL_REG_PLL1_MISC: u8 = 0x1d;

pub const LOCAL_REG_CKDCCR_2_0: u8 = 0x56;
pub const LOCAL_REG_CKDCCR_3_0: u8 = 0x57;
pub const LOCAL_REG_CKDCCR_4_0: u8 = 0x58;
pub const LOCAL_REG_CKDCCR_5_0: u8 = 0x59;
pub const LOCAL_REG_CKDLLR_0_0: u8 = 0x5a;
pub const LOCAL_REG_CKDLLR_1_0: u8 = 0x5b;
pub const LOCAL_REG_CKDCCR_2_1: u8 = 0x5e;
pub const LOCAL_REG_CKDCCR_3_1: u8 = 0x5f;
pub const LOCAL_REG_CKDCCR_4_1: u8 = 0x60;
pub const LOCAL_REG_CKDCCR_5_1: u8 = 0x61;
pub const LOCAL_REG_CKDLLR_0_1: u8 = 0x62;
pub const LOCAL_REG_CKDLLR_1_1: u8 = 0x63;

#[derive(Debug, Clone, Copy, PartialEq, Eq, Structural)]
pub enum Bzm2Pll {
    Pll0,
    Pll1,
}

/// Post-divider, feedback-divider, enable and misc registers of a PLL.
pub open spec fn pll_registers(pll: Bzm2Pll) -> (u8, u8, u8, u8) {
    match pll {
        Bzm2Pll::Pll0 => (LOCAL_REG_PLL_POSTDIV, LOCAL_REG_PLL_FBDIV, LOCAL_REG_PLL_ENABLE, LOCAL_REG_PLL_MISC),
        Bzm2Pll::Pll1 => (LOCAL_REG_PLL1_POSTDIV, LOCAL_REG_PLL1_FBDIV, LOCAL_REG_PLL1_ENABLE, LOCAL_REG_PLL1_MISC),
    }
}

impl Bzm2Pll {
    /// Post-divider, feedback-divider, enable and misc registers of the PLL.
    pub fn register_block(self) -> (r: (u8, u8, u8, u8))
        ensures
            r == pll_registers(self),
    {
        match self {
            Bzm2Pll::Pll0 => (
                LOCAL_REG_PLL_POSTDIV,
                LOCAL_REG_PLL_FBDIV,
                LOCAL_REG_PLL_ENABLE,
                LOCAL_REG_PLL_MISC,
            ),
            Bzm2Pll::Pll1 => (
                LOCAL_REG_PLL1_POSTDIV,
                LOCAL_REG_PLL1_FBDIV,
                LOCAL_REG_PLL1_ENABLE,
                LOCAL_REG_PLL1_MISC,
            ),
        }
    }
}

#[derive(Debug, Clone, Copy, PartialEq, Eq, Structural)]
pub enum Bzm2Dll {
    Dll0,
    Dll1,
}

/// Control registers 2 to 5 and the coarse-setting register of a DLL.
pub open spec fn dll_registers(dll: Bzm2Dll) -> (u8, u8, u8, u8, u8) {
    match dll {
        Bzm2Dll::Dll0 => (
            LOCAL_REG_CKDCCR_2_0,
            LOCAL_REG_CKDCCR_3_0,
            LOCAL_REG_CKDCCR_4_0,
            LOCAL_REG_CKDCCR_5_0,
            LOCAL_REG_CKDLLR_0_0,
        ),
        Bzm2Dll::Dll1 => (
            LOCAL_REG_CKDCCR_2_1,
            LOCAL_REG_CKDCCR_3_1,
            LOCAL_REG_CKDCCR_4_1,
            LOCAL_REG_CKDCCR_5_1,
            LOCAL_REG_CKDLLR_0_1,
        ),
    }
}

/// The value of DLL control register 2 for a configuration.
pub open spec fn control2_spec(c: Bzm2DllConfig) -> u8 {
    (((c.npi_clk & 0x7u8) << 3u8) | ((c.pibypb & 0x1u8) << 2u8) | ((c.dllfreeze & 0x1u8) << 1u8)) as u8
}

impl Bzm2Dll {
    /// Control registers 2 to 5 and the coarse-setting register of the DLL.
    pub fn registers(self) -> (r: (u8, u8, u8, u8, u8))
        ensures
            r == dll_registers(self),
    {
        match self {
            Bzm2Dll::Dll0 => (
                LOCAL_REG_CKDCCR_2_0,
                LOCAL_REG_CKDCCR_3_0,
                LOCAL_REG_CKDCCR_4_0,
                LOCAL_REG_CKDCCR_5_0,
                LOCAL_REG_CKDLLR_0_0,
            ),
            Bzm2Dll::Dll1 => (
                LOCAL_REG_CKDCCR_2_1,
                LOCAL_REG_CKDCCR_3_1,
                LOCAL_REG_CKDCCR_4_1,
                LOCAL_REG_CKDCCR_5_1,
                LOCAL_REG_CKDLLR_0_1,
            ),
        }
    }

    /// The register that holds the DLL's fine setting.
    pub fn fincon_register(self) -> (r: u8)
        ensures
            r == (match self {
                Bzm2Dll::Dll0 => LOCAL_REG_CKDLLR_1_0,
                Bzm2Dll::Dll1 => LOCAL_REG_CKDLLR_1_1,
            }),
    {
        match self {
            Bzm2Dll::Dll0 => LOCAL_REG_CKDLLR_1_0,
            Bzm2Dll::Dll1 => LOCAL_REG_CKDLLR_1_1,
        }
    }
}

/// Failures of clock control.
#[derive(Debug)]
pub enum Bzm2ClockError {
    Uart(Bzm2UartError),
    InvalidPostDivider(u8),
    InvalidDllDutyCycle(u8),
    PllLockTimeout { asic: u8, pll: Bzm2Pll, last_enable: u32 },
    DllLockTimeout { asic: u8, dll: Bzm2Dll, last_control: u8 },
    InvalidDllFincon { asic: u8, dll: Bzm2Dll, fincon: u8 },
}

/// The packed post-divider register value for a first post-divider.
pub open spec fn packed_post_divider_spec(post1_divider: u8) -> u32 {
    ((1u32 << 12u32) | ((POST2_DIVIDER as u32) << 9u32) | ((post1_divider as u32) << 6u32)
        | (REF_DIVIDER as u32)) as u32
}

/// The post-divider register value for a first post-divider of 0 to 7.
pub fn packed_post_divider(post1_divider: u8) -> (r: Result<u32, Bzm2ClockError>)
    ensures
        post1_divider > 7 ==> (r matches Err(Bzm2ClockError::InvalidPostDivider(d)) && d
            == post1_divider),
        post1_divider <= 7 ==> r == Ok::<u32, Bzm2ClockError>(packed_post_divider_spec(post1_divider)),
{
    if post1_divider > 7 {
        return Err(Bzm2ClockError::InvalidPostDivider(post1_divider));
    }
    Ok((1u32 << 12u32) | ((POST2_DIVIDER as u32) << 9u32) | ((post1_divider as u32) << 6u32)
        | REF_DIVIDER as u32)
}

/// The two register writes that program a PLL's dividers: the feedback
/// divider first, then the packed post divider.
pub fn pll_program_writes(pll: Bzm2Pll, feedback_divider: u16, packed_post_divider: u32) -> (r: [(
    u8,
    u32,
); 2])
    ensures
        r@ == seq![
            (pll_registers(pll).1, feedback_divider as u32),
            (pll_registers(pll).0, packed_post_divider),
        ],
{
    let (postdiv_reg, fbdiv_reg, _, _) = pll.register_block();
    let r = [(fbdiv_reg, feedback_divider as u32), (postdiv_reg, packed_post_divider)];
    assert(r@ =~= seq![(fbdiv_reg, feedback_divider as u32), (postdiv_reg, packed_post_divider)]);
    r
}

/// DLL settings for one duty cycle.
#[derive(Debug, Clone, Copy, PartialEq, Eq, Structural)]
pub struct Bzm2DllConfig {
    pub duty_cycle: u8,
    pub nde_dll: u8,
    pub nde_clk: u8,
    pub npi_clk: u8,
    pub pibypb: u8,
    pub dllfreeze: u8,
}

/// The preset of each supported duty cycle (25, 50, 55, 60 and 75).
pub open spec fn dll_preset(duty_cycle: u8) -> Option<Bzm2DllConfig> {
    let base = Bzm2DllConfig {
        duty_cycle,
        nde_dll: 0x1f,
        nde_clk: 0x0f,
        npi_clk: 0x0,
        pibypb: 1,
        dllfreeze: 0,
    };
    if duty_cycle == 50 {
        Some(base)
    } else if duty_cycle == 75 {
        Some(Bzm2DllConfig { nde_clk: 0x17, ..base })
    } else if duty_cycle == 60 {
        Some(Bzm2DllConfig { nde_dll: 0x1d, nde_clk: 0x11, ..base })
    } else if duty_cycle == 55 {
        Some(Bzm2DllConfig { nde_dll: 0x1d, nde_clk: 0x0f, npi_clk: 0x4, ..base })
    } else if duty_cycle == 25 {
        Some(Bzm2DllConfig { nde_clk: 0x07, ..base })
    } else {
        None
    }
}

impl Bzm2DllConfig {
    pub fn from_duty_cycle(duty_cycle: u8) -> (r: Result<Self, Bzm2ClockError>)
        ensures
            dll_preset(duty_cycle) matches Some(c) ==> r == Ok::<Self, Bzm2ClockError>(c),
            dll_preset(duty_cycle) is None ==> (r matches Err(Bzm2ClockError::InvalidDllDutyCycle(d))
                && d == duty_cycle),
    {
        let mut config = Bzm2DllConfig {
            duty_cycle,
            nde_dll: 0x1f,
            nde_clk: 0x0f,
            npi_clk: 0x0,
            pibypb: 1,
            dllfreeze: 0,
        };
        if duty_cycle == 50 {
        } else if duty_cycle == 75 {
            config.nde_clk = 0x17;
        } else if duty_cycle == 60 {
            config.nde_dll = 0x1d;
            config.nde_clk = 0x11;
        } else if duty_cycle == 55 {
            config.nde_dll = 0x1d;
            config.nde_clk = 0x0f;
            config.npi_clk = 0x4;
        } else if duty_cycle == 25 {
            config.nde_clk = 0x07;
        } else {
            return Err(Bzm2ClockError::InvalidDllDutyCycle(duty_cycle));
        }
        Ok(config)
    }

    /// The value of DLL control register 2 for these settings.
    pub fn control2(self) -> (r: u8)
        ensures
            r == control2_spec(self),
    {
        ((self.npi_clk & 0x7) << 3u8) | ((self.pibypb & 0x1) << 2u8) | ((self.dllfreeze & 0x1)
            << 1u8)
    }
}

/// The three byte writes that program a DLL: control registers 3, 4 and
/// then 2.
pub fn dll_program_writes(dll: Bzm2Dll, config: Bzm2DllConfig) -> (r: [(u8, u8); 3])
    ensures
        r@ == seq![
            (dll_registers(dll).1, config.nde_dll & 0x1fu8),
            (dll_registers(dll).2, config.nde_clk & 0x1fu8),
            (dll_registers(dll).0, control2_spec(config)),
        ],
{
    let (control2_reg, control3_reg, control4_reg, _, _) = dll.registers();
    let r = [
        (control3_reg, config.nde_dll & 0x1f),
        (control4_reg, config.nde_clk & 0x1f),
        (control2_reg, config.control2()),
    ];
    assert(r@ =~= seq![
        (control3_reg, config.nde_dll & 0x1fu8),
        (control4_reg, config.nde_clk & 0x1fu8),
        (control2_reg, control2_spec(config)),
    ]);
    r
}

/// What control register 5 becomes at each of the two enable steps: bit 0
/// is set first, then bit 2, each on the value read back just before.
pub fn dll_enable_value(read_back: u8, second_step: bool) -> (r: u8)
    ensures
        r == (if second_step { read_back | 0x4u8 } else { read_back | 0x1u8 }),
{
    if second_step {
        assert((0x1u8 << 2u8) == 0x4u8) by (bit_vector);
        read_back | (0x1u8 << 2u8)
    } else {
        read_back | 0x1
    }
}

#[derive(Debug, Clone, Copy, PartialEq, Eq, Structural)]
pub struct Bzm2PllStatus {
    pub pll: Bzm2Pll,
    pub enable_register: u32,
    pub misc_register: u32,
    pub enabled: bool,
    pub locked: bool,
}

impl Bzm2PllStatus {
    /// Decodes a PLL's enable and misc registers.
    pub fn from_registers(pll: Bzm2Pll, enable: u32, misc: u32) -> (r: Self)
        ensures
            r == (Bzm2PllStatus {
                pll,
                enable_register: enable,
                misc_register: misc,
                enabled: (enable & 0x1u32) != 0,
                locked: (enable & 0x4u32) != 0,
            }),
    {
        Bzm2PllStatus {
            pll,
            enable_register: enable,
            misc_register: misc,
            enabled: (enable & 0x1) != 0,
            locked: (enable & 0x4) != 0,
        }
    }
}

/// Whether a DLL fine setting is usable: its top nibble is neither 0x0 nor
/// 0xf and its top three bits are neither 000 nor 111.
pub open spec fn fincon_valid_spec(fincon: u8) -> bool {
    let nibble = fincon & 0xf0u8;
    let top3 = fincon & 0xe0u8;
    nibble != 0xf0u8 && nibble != 0x00u8 && top3 != 0xe0u8 && top3 != 0x00u8
}

pub fn fincon_is_valid(fincon: u8) -> (r: bool)
    ensures
        r == fincon_valid_spec(fincon),
{
    let nibble = fincon & 0xf0;
    let top3 = fincon & 0xe0;
    nibble != 0xf0 && nibble != 0x00 && top3 != 0xe0 && top3 != 0x00
}

#[derive(Debug, Clone, Copy, PartialEq, Eq, Structural)]
pub struct Bzm2DllStatus {
    pub dll: Bzm2Dll,
    pub control2: u8,
    pub control5: u8,
    pub coarsecon: u8,
    pub fincon: u8,
    pub freeze_valid: bool,
    pub locked: bool,
    pub fincon_valid: bool,
}

impl Bzm2DllStatus {
    /// Decodes a DLL's control registers 2 and 5, its coarse register and
    /// its fine setting.
    pub fn from_registers(dll: Bzm2Dll, control2: u8, control5: u8, coarse_raw: u8, fincon: u8) -> (r:
        Self)
        ensures
            r == (Bzm2DllStatus {
                dll,
                control2,
                control5,
                coarsecon: (coarse_raw >> 5u8) & 0x7u8,
                fincon,
                freeze_valid: (control2 & 0x2u8) != 0,
                locked: (control5 & 0x2u8) != 0,
                fincon_valid: fincon_valid_spec(fincon),
            }),
    {
        Bzm2DllStatus {
            dll,
            control2,
            control5,
            coarsecon: (coarse_raw >> 5u8) & 0x7,
            fincon,
            freeze_valid: (control2 & 0x2) != 0,
            locked: (control5 & 0x2) != 0,
            fincon_valid: fincon_is_valid(fincon),
        }
    }
}

#[derive(Debug, Clone, PartialEq, Eq)]
pub struct Bzm2ClockDebugReport {
    pub asic: u8,
    pub pll0: Bzm2PllStatus,
    pub pll1: Bzm2PllStatus,
    pub dll0: Bzm2DllStatus,
    pub dll1: Bzm2DllStatus,
}

/// What one poll of a PLL lock wait decides: done with the status once the
/// PLL is locked, failed once the wait has timed out, otherwise poll again.
pub fn pll_lock_poll(asic: u8, status: Bzm2PllStatus, last_enable: u32, timed_out: bool) -> (r:
    Option<Result<Bzm2PllStatus, Bzm2ClockError>>)
    ensures
        status.locked ==> r == Some(Ok::<Bzm2PllStatus, Bzm2ClockError>(status)),
        !status.locked && timed_out ==> (r matches Some(
            Err(Bzm2ClockError::PllLockTimeout { asic: a, pll: p, last_enable: e }),
        ) && a == asic && p == status.pll && e == last_enable),
        !status.locked && !timed_out ==> r is None,
{
    if status.locked {
        return Some(Ok(status));
    }
    if timed_out {
        return Some(Err(Bzm2ClockError::PllLockTimeout { asic, pll: status.pll, last_enable }));
    }
    None
}

/// What one poll of a DLL lock wait decides.
pub fn dll_lock_poll(asic: u8, status: Bzm2DllStatus, last_control: u8, timed_out: bool) -> (r:
    Option<Result<Bzm2DllStatus, Bzm2ClockError>>)
    ensures
        status.locked ==> r == Some(Ok::<Bzm2DllStatus, Bzm2ClockError>(status)),
        !status.locked && timed_out ==> (r matches Some(
            Err(Bzm2ClockError::DllLockTimeout { asic: a, dll: d, last_control: c }),
        ) && a == asic && d == status.dll && c == last_control),
        !status.locked && !timed_out ==> r is None,
{
    if status.locked {
        return Some(Ok(status));
    }
    if timed_out {
        return Some(Err(Bzm2ClockError::DllLockTimeout { asic, dll: status.dll, last_control }));
    }
    None
}

/// A DLL that reports its setting as frozen needs no lock wait.
pub fn dll_already_frozen(control2: u8) -> (r: bool)
    ensures
        r == ((control2 & 0x2u8) != 0),
{
    (control2 & 0x2) != 0
}

/// Accepts a DLL status only when its fine setting is usable.
pub fn ensure_fincon_valid(asic: u8, status: Bzm2DllStatus) -> (r: Result<Bzm2DllStatus, Bzm2ClockError>)
    ensures
        status.fincon_valid ==> r == Ok::<Bzm2DllStatus, Bzm2ClockError>(status),
        !status.fincon_valid ==> (r matches Err(
            Bzm2ClockError::InvalidDllFincon { asic: a, dll: d, fincon: f },
        ) && a == asic && d == status.dll && f == status.fincon),
{
    if !status.fincon_valid {
        return Err(Bzm2ClockError::InvalidDllFincon { asic, dll: status.dll, fincon: status.fincon });
    }
    Ok(status)
}

/// Clock control of the ASICs on one UART bus.
pub struct Bzm2ClockController<R, W> {
    uart: Bzm2UartController<R, W>,
}

impl<R, W> Bzm2ClockController<R, W> {
    pub closed spec fn uart(&self) -> Bzm2UartController<R, W> {
        self.uart
    }

    pub fn new(reader: R, writer: W) -> (r: Self)
        ensures
            r.uart().reader() == reader,
            r.uart().writer() == writer,
    {
        Bzm2ClockController { uart: Bzm2UartController::new(reader, writer) }
    }

    pub fn from_uart(uart: Bzm2UartController<R, W>) -> (r: Self)
        ensures
            r.uart() == uart,
    {
        Bzm2ClockController { uart }
    }

    pub fn into_uart(self) -> (r: Bzm2UartController<R, W>)
        ensures
            r == self.uart(),
    {
        self.uart
    }
}


/// The supported duty cycles are exactly 25, 50, 55, 60 and 75 %. Each has
/// its own preset, which keeps the duty cycle, sets `pibypb` and leaves
/// `dllfreeze` clear; the 50 % preset is
/// the base setting (`nde_dll` 0x1f, `nde_clk` 0x0f, `npi_clk` 0), and no
/// two duty cycles share their `nde_dll`/`nde_clk`/`npi_clk` setting.
pub proof fn lemma_dll_presets()
    ensures
        forall|d: u8| #[trigger] dll_preset(d) is Some <==> (d == 25 || d == 50 || d == 55 || d == 60 || d == 75),
        forall|d: u8|
            #[trigger] dll_preset(d) matches Some(c) ==> c.duty_cycle == d && c.pibypb == 1 && c.dllfreeze == 0,
        dll_preset(50) matches Some(c) && c.nde_dll == 0x1f && c.nde_clk == 0x0f && c.npi_clk == 0,
        dll_preset(25) matches Some(c) && c.nde_dll == 0x1f && c.nde_clk == 0x07 && c.npi_clk == 0,
        dll_preset(55) matches Some(c) && c.nde_dll == 0x1d && c.nde_clk == 0x0f && c.npi_clk == 4,
        dll_preset(60) matches Some(c) && c.nde_dll == 0x1d && c.nde_clk == 0x11 && c.npi_clk == 0,
        dll_preset(75) matches Some(c) && c.nde_dll == 0x1f && c.nde_clk == 0x17 && c.npi_clk == 0,
        forall|a: u8, b: u8|
            #![trigger dll_preset(a), dll_preset(b)]
            a != b && dll_preset(a) is Some && dll_preset(b) is Some ==> {
                let ca = dll_preset(a)->0;
                let cb = dll_preset(b)->0;
                ca.nde_dll != cb.nde_dll || ca.nde_clk != cb.nde_clk || ca.npi_clk != cb.npi_clk
            },
{
}

} // verus!

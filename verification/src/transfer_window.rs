//! The window that shows a transfer: its words, its buttons, and when it comes and goes.

use crate::clipboard::product::session::ProductSnapshot;
use crate::clipboard::product::summary::{
    ProductManifestSummary, ProductTransferSnapshot, ProductTransferState,
};
use crate::text;
use vstd::prelude::*;

verus! {

/// The class of the window.
pub const TRANSFER_WINDOW_CLASS: &'static str = "ClipFerryTransferWindow";

pub const CONTROL_PAUSE: usize = 1;

pub const CONTROL_RESUME: usize = 2;

pub const CONTROL_CANCEL: usize = 3;

pub const WM_CLOSE: u32 = 0x0010;

pub const WM_COMMAND: u32 = 0x0111;

pub const WM_SYSCOMMAND: u32 = 0x0112;

pub const SC_MINIMIZE: u32 = 0xf020;

/// The direction of an offer that is received.
pub const RECEIVING: &'static str = "接收";

/// The commands that the buttons send.
#[derive(Clone, Copy, Debug, PartialEq, Eq, Structural)]
pub struct TransferWindowCommands {
    pub pause: usize,
    pub resume: usize,
    pub cancel: usize,
}

/// The colour of the progress bar.
#[derive(Clone, Copy, Debug, PartialEq, Eq, Structural)]
pub enum ProgressColor {
    Normal,
    Paused,
    Error,
}

/// The smaller of two numbers.
pub open spec fn least(left: int, right: int) -> int {
    if left < right {
        left
    } else {
        right
    }
}

/// How far a transfer is, in thousandths. Numbers that are too large for a thousandfold count as
/// the largest that there is.
pub open spec fn tenths(transferred: u64, total: u64, state: ProductTransferState) -> int {
    if total == 0 {
        if state is Completed {
            1000
        } else {
            0
        }
    } else {
        least(1000 * least(transferred as int, total as int), u64::MAX as int) / total as int
    }
}

proof fn lemma_tenths_bounded(part: u64, total: u64)
    requires
        part <= total,
        0 < total,
    ensures
        0 <= least(1000 * part as int, u64::MAX as int) / total as int <= 1000,
{
    let scaled = least(1000 * part as int, u64::MAX as int);
    assert(0 <= scaled <= 1000 * total);
    assert(0 <= scaled / total as int <= 1000) by (nonlinear_arith)
        requires
            0 <= scaled <= 1000 * total,
            0 < total,
    ;
}

/// How far a transfer is, in thousandths.
pub fn progress_tenths(transferred: u64, total: u64, state: ProductTransferState) -> (result: u16)
    ensures
        result == tenths(transferred, total, state),
        result <= 1000,
{
    if total == 0 {
        return if state == ProductTransferState::Completed {
            1000
        } else {
            0
        };
    }
    let part: u64 = if transferred < total {
        transferred
    } else {
        total
    };
    let scaled: u64 = match part.checked_mul(1000) {
        Some(scaled) => scaled,
        None => u64::MAX,
    };
    proof {
        lemma_tenths_bounded(part, total);
    }
    (scaled / total) as u16
}

/// Whether a transfer is shown: an offer that was not pasted does not replace what is shown.
pub open spec fn presents(
    displayed: Option<u64>,
    incoming: u64,
    state: ProductTransferState,
) -> bool {
    displayed is None || displayed == Some(incoming) || !(state is AwaitingPaste)
}

/// Whether a transfer is shown.
pub fn should_present_generation(
    displayed: Option<u64>,
    incoming: u64,
    state: ProductTransferState,
) -> (result: bool)
    ensures
        result == presents(displayed, incoming, state),
{
    match displayed {
        None => true,
        Some(displayed) => displayed == incoming || state != ProductTransferState::AwaitingPaste,
    }
}

/// A number of seconds in words.
pub open spec fn duration_text(seconds: int) -> Seq<char> {
    if seconds >= 3600 {
        text::decimal((seconds / 3600) as nat) + " 小时 "@ + text::decimal(
            (seconds % 3600 / 60) as nat,
        ) + " 分"@
    } else if seconds >= 60 {
        text::decimal((seconds / 60) as nat) + " 分 "@ + text::decimal((seconds % 60) as nat)
            + " 秒"@
    } else {
        text::decimal(seconds as nat) + " 秒"@
    }
}

/// The smallest number of times that a part reaches a whole.
pub open spec fn quotient_up(whole: int, part: int) -> int {
    if whole % part == 0 {
        whole / part
    } else {
        whole / part + 1
    }
}

/// The time that a transfer still takes, in words.
pub open spec fn remaining_text(transfer: ProductTransferSnapshot) -> Seq<char> {
    if transfer.state is Completed {
        "已完成"@
    } else if transfer.state is Paused {
        "已暂停"@
    } else if transfer.bytes_per_second == 0 {
        "计算中"@
    } else {
        duration_text(
            quotient_up(
                if transfer.transferred < transfer.total_size {
                    transfer.total_size - transfer.transferred
                } else {
                    0
                },
                transfer.bytes_per_second as int,
            ),
        )
    }
}

/// The time that a transfer still takes, in words.
pub fn format_remaining(transfer: &ProductTransferSnapshot) -> (result: String)
    ensures
        result@ == remaining_text(*transfer),
{
    let mut result = String::new();
    if transfer.state == ProductTransferState::Completed {
        text::push_text(&mut result, "已完成");
        assert(result@ =~= remaining_text(*transfer));
        return result;
    }
    if transfer.state == ProductTransferState::Paused {
        text::push_text(&mut result, "已暂停");
        assert(result@ =~= remaining_text(*transfer));
        return result;
    }
    if transfer.bytes_per_second == 0 {
        text::push_text(&mut result, "计算中");
        assert(result@ =~= remaining_text(*transfer));
        return result;
    }
    let left: u64 = transfer.total_size.saturating_sub(transfer.transferred);
    let rate: u64 = transfer.bytes_per_second;
    let whole: u64 = left / rate;
    proof {
        assert(left as int == whole * rate + left % rate) by (nonlinear_arith)
            requires
                whole == left / rate,
                rate > 0,
        ;
        assert(left % rate != 0 ==> whole < u64::MAX) by (nonlinear_arith)
            requires
                whole == left / rate,
                rate > 0,
                left <= u64::MAX,
        ;
    }
    let seconds: u64 = if left % rate == 0 {
        whole
    } else {
        whole + 1
    };
    if seconds >= 3600 {
        text::push_decimal(&mut result, seconds / 3600);
        text::push_text(&mut result, " 小时 ");
        text::push_decimal(&mut result, seconds % 3600 / 60);
        text::push_text(&mut result, " 分");
    } else if seconds >= 60 {
        text::push_decimal(&mut result, seconds / 60);
        text::push_text(&mut result, " 分 ");
        text::push_decimal(&mut result, seconds % 60);
        text::push_text(&mut result, " 秒");
    } else {
        text::push_decimal(&mut result, seconds);
        text::push_text(&mut result, " 秒");
    }
    assert(result@ =~= duration_text(seconds as int));
    result
}

/// Ten to a power.
pub open spec fn power_of_ten(exponent: nat) -> nat
    decreases exponent,
{
    if exponent == 0 {
        1
    } else {
        10 * power_of_ten((exponent - 1) as nat)
    }
}

/// A number in decimal digits, with zeros before it up to a width.
pub open spec fn padded(value: nat, width: nat) -> Seq<char> {
    let digits = text::decimal(value);
    if digits.len() >= width {
        digits
    } else {
        Seq::new((width - digits.len()) as nat, |k: int| '0') + digits
    }
}

/// A number of bytes in a unit, with some digits behind the point, rounded down.
pub open spec fn scaled_text(bytes: u64, unit: u64, decimals: nat, suffix: Seq<char>) -> Seq<char> {
    let rest = bytes as int % unit as int;
    text::decimal((bytes as int / unit as int) as nat) + "."@ + padded(
        (rest * power_of_ten(decimals) / unit as int) as nat,
        decimals,
    ) + " "@ + suffix
}

/// A number of bytes in words.
pub open spec fn bytes_text(bytes: u64) -> Seq<char> {
    if bytes >= 0x4000_0000 {
        scaled_text(bytes, 0x4000_0000, 2, "GiB"@)
    } else if bytes >= 0x10_0000 {
        scaled_text(bytes, 0x10_0000, 1, "MiB"@)
    } else if bytes >= 0x400 {
        scaled_text(bytes, 0x400, 1, "KiB"@)
    } else {
        text::decimal(bytes as nat) + " B"@
    }
}

/// Appends a number in decimal digits, with zeros before it up to a width.
fn push_padded(result: &mut String, value: u64, width: usize)
    ensures
        final(result)@ == old(result)@ + padded(value as nat, width as nat),
{
    let ghost before = result@;
    let mut digits = String::new();
    text::push_decimal(&mut digits, value);
    assert(digits@ =~= text::decimal(value as nat));
    let mut count: usize = text::characters(digits.as_str()).len();
    let ghost mut done: nat = 0;
    while count < width
        invariant
            count == digits@.len() + done,
            done == 0 || count <= width,
            result@ =~= before + Seq::new(done, |k: int| '0'),
        decreases width - count,
    {
        text::push_text(result, "0");
        proof {
            reveal_strlit("0");
            done = done + 1;
        }
        count += 1;
    }
    text::push_text(result, digits.as_str());
    assert(result@ =~= before + padded(value as nat, width as nat));
}

/// Ten to a power that fits into 64 bits.
fn ten_to(exponent: u32) -> (power: u64)
    requires
        exponent <= 19,
    ensures
        power == power_of_ten(exponent as nat),
        0 < power <= 10_000_000_000_000_000_000,
{
    let mut power: u64 = 1;
    let mut index: u32 = 0;
    assert(power_of_ten(19) == 10_000_000_000_000_000_000) by {
        reveal_with_fuel(power_of_ten, 20);
    }
    while index < exponent
        invariant
            index <= exponent <= 19,
            power == power_of_ten(index as nat),
            0 < power,
            power_of_ten(19) == 10_000_000_000_000_000_000,
        decreases exponent - index,
    {
        proof {
            lemma_powers_grow(index as nat + 1, 19);
        }
        power = power * 10;
        index += 1;
    }
    proof {
        lemma_powers_grow(exponent as nat, 19);
    }
    power
}

proof fn lemma_powers_grow(low: nat, high: nat)
    requires
        low <= high,
    ensures
        power_of_ten(low) <= power_of_ten(high),
    decreases high - low,
{
    if low < high {
        lemma_powers_grow(low + 1, high);
    }
}

/// A number of bytes in a unit, with some digits behind the point, rounded down.
pub fn format_scaled_bytes(bytes: u64, unit: u64, decimals: u32, suffix: &str) -> (result: String)
    requires
        0 < unit,
        decimals <= 19,
    ensures
        result@ == scaled_text(bytes, unit, decimals as nat, suffix@),
{
    let mut result = String::new();
    text::push_decimal(&mut result, bytes / unit);
    text::push_text(&mut result, ".");
    let rest: u64 = bytes % unit;
    let factor: u64 = ten_to(decimals);
    assert(0 <= rest * factor <= rest * 10_000_000_000_000_000_000) by (nonlinear_arith)
        requires
            0 <= rest,
            0 < factor <= 10_000_000_000_000_000_000,
    ;
    let scaled: u128 = rest as u128 * factor as u128 / unit as u128;
    assert(0 <= scaled < factor) by (nonlinear_arith)
        requires
            scaled == (rest as int * factor as int) / unit as int,
            rest < unit,
            0 < factor,
    ;
    push_padded(&mut result, scaled as u64, decimals as usize);
    text::push_text(&mut result, " ");
    text::push_text(&mut result, suffix);
    assert(result@ =~= scaled_text(bytes, unit, decimals as nat, suffix@));
    result
}

/// A number of bytes in words.
pub fn format_bytes(bytes: u64) -> (result: String)
    ensures
        result@ == bytes_text(bytes),
{
    if bytes >= 0x4000_0000 {
        format_scaled_bytes(bytes, 0x4000_0000, 2, "GiB")
    } else if bytes >= 0x10_0000 {
        format_scaled_bytes(bytes, 0x10_0000, 1, "MiB")
    } else if bytes >= 0x400 {
        format_scaled_bytes(bytes, 0x400, 1, "KiB")
    } else {
        let mut result = String::new();
        text::push_decimal(&mut result, bytes);
        text::push_text(&mut result, " B");
        assert(result@ =~= bytes_text(bytes));
        result
    }
}

/// A text, cut to a number of characters with an ellipsis where it has more.
pub open spec fn truncated(text: Seq<char>, limit: nat) -> Seq<char> {
    if text.len() > limit {
        text.take(limit as int) + "…"@
    } else {
        text
    }
}

/// A text, cut to a number of characters with an ellipsis where it has more.
pub fn truncate(text: &str, max_chars: usize) -> (result: String)
    ensures
        result@ == truncated(text@, max_chars as nat),
{
    let characters = text::characters(text);
    if characters.len() > max_chars {
        assert(characters@.subrange(0, max_chars as int) =~= text@.take(max_chars as int));
        let mut result = text::text_of(&characters.as_slice()[0..max_chars]);
        text::push_text(&mut result, "…");
        result
    } else {
        text::text_of(characters.as_slice())
    }
}

/// What the window shows.
#[derive(Debug)]
pub struct WindowContent {
    pub title: String,
    pub heading: String,
    pub state: String,
    pub amount: String,
    pub speed: String,
    pub current_file: String,
    pub recovery: String,
    pub cancel: &'static str,
    pub tenths: u16,
    pub color: ProgressColor,
    pub can_pause: bool,
    pub can_resume: bool,
    /// Whether the window comes up, without taking the focus.
    pub appear: bool,
}

/// The heading of the window.
pub open spec fn heading_text(manifest: ProductManifestSummary) -> Seq<char> {
    truncated(manifest.primary_name@, 72) + " · "@ + text::decimal(manifest.files as nat)
        + " 个文件 / "@ + text::decimal(manifest.directories as nat) + " 个目录"@
}

/// The line on how a transfer stands.
pub open spec fn state_text(transfer: ProductTransferSnapshot) -> Seq<char> {
    let done = tenths(transfer.transferred, transfer.total_size, transfer.state);
    transfer.state.spec_label() + " · "@ + text::decimal((done / 10) as nat) + "."@ + text::decimal(
        (done % 10) as nat,
    ) + "%"@
}

/// The line on how much was transferred.
pub open spec fn amount_text(transfer: ProductTransferSnapshot) -> Seq<char> {
    "已传输："@ + bytes_text(transfer.transferred) + " / "@ + bytes_text(transfer.total_size)
}

/// The line on how fast a transfer is.
pub open spec fn speed_text(transfer: ProductTransferSnapshot) -> Seq<char> {
    "当前速度："@ + bytes_text(transfer.bytes_per_second) + "/s    平均速度："@ + bytes_text(
        transfer.average_bytes_per_second,
    ) + "/s    剩余："@ + remaining_text(transfer)
}

/// The line on the file that is being transferred.
pub open spec fn current_file_text(transfer: ProductTransferSnapshot) -> Seq<char> {
    "当前文件："@ + (match transfer.current_file_name {
        None => "尚未开始"@,
        Some(name) => truncated(name@, 52),
    }) + "    "@ + bytes_text(transfer.current_file_transferred) + " / "@ + bytes_text(
        transfer.current_file_size,
    ) + "    文件 "@ + text::decimal(
        least(transfer.started_files as int, transfer.total_files as int) as nat,
    ) + "/"@ + text::decimal(transfer.total_files as nat)
}

/// The line on the network.
pub open spec fn recovery_text(transfer: ProductTransferSnapshot) -> Seq<char> {
    if transfer.recovery_active {
        "网络状态：正在重连 · 已尝试 "@ + text::decimal(transfer.reconnect_attempts as nat)
            + " 次 · 已恢复 "@ + text::decimal(transfer.recovered_commands as nat) + " 次命令"@
    } else if transfer.reconnect_attempts != 0 {
        "网络状态：已恢复 · 共尝试 "@ + text::decimal(transfer.reconnect_attempts as nat)
            + " 次 · 已恢复 "@ + text::decimal(transfer.recovered_commands as nat) + " 次命令"@
    } else {
        "网络状态：稳定"@
    }
}

/// Whether nothing more happens to a transfer.
pub open spec fn over(state: ProductTransferState) -> bool {
    state is Completed || state is Cancelled || state is Failed
}

/// What stands on the last button.
pub open spec fn cancel_label(state: ProductTransferState) -> &'static str {
    match state {
        ProductTransferState::Completed => "完成",
        ProductTransferState::Cancelled | ProductTransferState::Failed => "关闭",
        _ => "取消",
    }
}

/// The colour of the progress bar.
pub open spec fn color_of(state: ProductTransferState) -> ProgressColor {
    match state {
        ProductTransferState::Paused => ProgressColor::Paused,
        ProductTransferState::Cancelled | ProductTransferState::Failed => ProgressColor::Error,
        _ => ProgressColor::Normal,
    }
}

/// Whether the window shows a transfer as it must.
pub open spec fn shows(
    content: WindowContent,
    peer_label: Seq<char>,
    manifest: ProductManifestSummary,
    transfer: ProductTransferSnapshot,
    appear: bool,
) -> bool {
    &&& content.title@ == "ClipFerry · 从“"@ + peer_label + "”接收"@
    &&& content.heading@ == heading_text(manifest)
    &&& content.state@ == state_text(transfer)
    &&& content.amount@ == amount_text(transfer)
    &&& content.speed@ == speed_text(transfer)
    &&& content.current_file@ == current_file_text(transfer)
    &&& content.recovery@ == recovery_text(transfer)
    &&& content.cancel == cancel_label(transfer.state)
    &&& content.tenths == tenths(transfer.transferred, transfer.total_size, transfer.state)
    &&& content.color == color_of(transfer.state)
    &&& content.can_pause == (transfer.state is Running)
    &&& content.can_resume == (transfer.state is Paused)
    &&& content.appear == appear
}

fn heading_of(manifest: &ProductManifestSummary) -> (result: String)
    ensures
        result@ == heading_text(*manifest),
{
    let mut result = truncate(manifest.primary_name.as_str(), 72);
    text::push_text(&mut result, " · ");
    text::push_decimal(&mut result, manifest.files as u64);
    text::push_text(&mut result, " 个文件 / ");
    text::push_decimal(&mut result, manifest.directories as u64);
    text::push_text(&mut result, " 个目录");
    result
}

fn state_of(transfer: &ProductTransferSnapshot) -> (result: String)
    ensures
        result@ == state_text(*transfer),
{
    let done: u16 = progress_tenths(transfer.transferred, transfer.total_size, transfer.state);
    let mut result = String::new();
    text::push_text(&mut result, transfer.state.label());
    text::push_text(&mut result, " · ");
    text::push_decimal(&mut result, (done / 10) as u64);
    text::push_text(&mut result, ".");
    text::push_decimal(&mut result, (done % 10) as u64);
    text::push_text(&mut result, "%");
    assert(result@ =~= state_text(*transfer));
    result
}

fn amount_of(transfer: &ProductTransferSnapshot) -> (result: String)
    ensures
        result@ == amount_text(*transfer),
{
    let mut result = String::new();
    text::push_text(&mut result, "已传输：");
    text::push_text(&mut result, format_bytes(transfer.transferred).as_str());
    text::push_text(&mut result, " / ");
    text::push_text(&mut result, format_bytes(transfer.total_size).as_str());
    assert(result@ =~= amount_text(*transfer));
    result
}

fn speed_of(transfer: &ProductTransferSnapshot) -> (result: String)
    ensures
        result@ == speed_text(*transfer),
{
    let mut result = String::new();
    text::push_text(&mut result, "当前速度：");
    text::push_text(&mut result, format_bytes(transfer.bytes_per_second).as_str());
    text::push_text(&mut result, "/s    平均速度：");
    text::push_text(&mut result, format_bytes(transfer.average_bytes_per_second).as_str());
    text::push_text(&mut result, "/s    剩余：");
    text::push_text(&mut result, format_remaining(transfer).as_str());
    assert(result@ =~= speed_text(*transfer));
    result
}

fn current_file_of(transfer: &ProductTransferSnapshot) -> (result: String)
    ensures
        result@ == current_file_text(*transfer),
{
    let mut result = String::new();
    text::push_text(&mut result, "当前文件：");
    match &transfer.current_file_name {
        None => {
            text::push_text(&mut result, "尚未开始");
        },
        Some(name) => {
            text::push_text(&mut result, truncate(name.as_str(), 52).as_str());
        },
    }
    text::push_text(&mut result, "    ");
    text::push_text(&mut result, format_bytes(transfer.current_file_transferred).as_str());
    text::push_text(&mut result, " / ");
    text::push_text(&mut result, format_bytes(transfer.current_file_size).as_str());
    text::push_text(&mut result, "    文件 ");
    let started: usize = if transfer.started_files < transfer.total_files {
        transfer.started_files
    } else {
        transfer.total_files
    };
    text::push_decimal(&mut result, started as u64);
    text::push_text(&mut result, "/");
    text::push_decimal(&mut result, transfer.total_files as u64);
    assert(result@ =~= current_file_text(*transfer));
    result
}

fn recovery_of(transfer: &ProductTransferSnapshot) -> (result: String)
    ensures
        result@ == recovery_text(*transfer),
{
    let mut result = String::new();
    if transfer.recovery_active {
        text::push_text(&mut result, "网络状态：正在重连 · 已尝试 ");
        text::push_decimal(&mut result, transfer.reconnect_attempts);
        text::push_text(&mut result, " 次 · 已恢复 ");
        text::push_decimal(&mut result, transfer.recovered_commands);
        text::push_text(&mut result, " 次命令");
    } else if transfer.reconnect_attempts != 0 {
        text::push_text(&mut result, "网络状态：已恢复 · 共尝试 ");
        text::push_decimal(&mut result, transfer.reconnect_attempts);
        text::push_text(&mut result, " 次 · 已恢复 ");
        text::push_decimal(&mut result, transfer.recovered_commands);
        text::push_text(&mut result, " 次命令");
    } else {
        text::push_text(&mut result, "网络状态：稳定");
    }
    assert(result@ =~= recovery_text(*transfer));
    result
}

/// The window: which transfer it shows, whether the user hid it, and whether its last button
/// closes it.
#[derive(Clone, Copy, Debug, PartialEq, Eq, Structural)]
pub struct TransferWindow {
    pub generation: Option<u64>,
    pub hidden_by_user: bool,
    pub primary_is_close: bool,
}

/// What the window does with a message.
#[derive(Clone, Copy, Debug, PartialEq, Eq, Structural)]
pub enum WindowAction {
    /// Goes away.
    Hide,
    /// Sends a command.
    Send { command: usize },
    /// Sends a command and goes away.
    SendAndHide { command: usize },
    /// Has nothing to do.
    Handled,
    /// Leaves the message to the system.
    Default,
}

/// The transfer that a snapshot shows, if it shows one that is received.
pub open spec fn received(snapshot: ProductSnapshot) -> Option<
    (ProductManifestSummary, ProductTransferSnapshot),
> {
    match (snapshot.last_manifest, snapshot.transfer) {
        (Some(manifest), Some(transfer)) => if manifest.direction@ == RECEIVING@ {
            Some((manifest, transfer))
        } else {
            None
        },
        _ => None,
    }
}

impl TransferWindow {
    pub open spec fn fresh() -> TransferWindow {
        TransferWindow { generation: None, hidden_by_user: false, primary_is_close: false }
    }

    /// The window once it shows a transfer.
    pub open spec fn showing(self, generation: u64, state: ProductTransferState) -> TransferWindow {
        TransferWindow {
            generation: Some(generation),
            hidden_by_user: self.hidden_by_user && self.generation == Some(generation),
            primary_is_close: over(state),
        }
    }

    /// What the window shows of a snapshot, and how it stands thereafter.
    pub open spec fn updating(
        self,
        snapshot: ProductSnapshot,
        visible: bool,
        content: Option<WindowContent>,
        after: TransferWindow,
    ) -> bool {
        match received(snapshot) {
            Some((manifest, transfer)) if presents(
                self.generation,
                snapshot.transfer_generation,
                transfer.state,
            ) => {
                &&& after == self.showing(snapshot.transfer_generation, transfer.state)
                &&& content matches Some(content)
                &&& shows(
                    content,
                    snapshot.active_peer_label@,
                    manifest,
                    transfer,
                    (transfer.state is Running || transfer.state is Paused) && !after.hidden_by_user
                        && !visible,
                )
            },
            _ => content is None && after == self,
        }
    }

    /// The window once it did something.
    pub open spec fn once(self, action: WindowAction) -> TransferWindow {
        TransferWindow {
            hidden_by_user: self.hidden_by_user || action is Hide || action is SendAndHide,
            ..self
        }
    }

    pub fn new() -> (window: Self)
        ensures
            window == TransferWindow::fresh(),
    {
        TransferWindow { generation: None, hidden_by_user: false, primary_is_close: false }
    }

    /// What the window shows of a snapshot; nothing where it stays as it is. `visible` tells
    /// whether it can be seen.
    pub fn update(&mut self, snapshot: &ProductSnapshot, visible: bool) -> (content: Option<
        WindowContent,
    >)
        ensures
            old(self).updating(*snapshot, visible, content, *final(self)),
    {
        let manifest = match &snapshot.last_manifest {
            None => {
                return None;
            },
            Some(manifest) => manifest,
        };
        if !text::same_text(manifest.direction, RECEIVING) {
            return None;
        }
        let transfer = match &snapshot.transfer {
            None => {
                return None;
            },
            Some(transfer) => transfer,
        };
        let generation: u64 = snapshot.transfer_generation;
        if !should_present_generation(self.generation, generation, transfer.state) {
            return None;
        }
        let same = match self.generation {
            None => false,
            Some(displayed) => displayed == generation,
        };
        if !same {
            self.generation = Some(generation);
            self.hidden_by_user = false;
        }
        let finished = match transfer.state {
            ProductTransferState::Completed | ProductTransferState::Cancelled
            | ProductTransferState::Failed => true,
            _ => false,
        };
        self.primary_is_close = finished;
        let mut title = String::new();
        text::push_text(&mut title, "ClipFerry · 从“");
        text::push_text(&mut title, snapshot.active_peer_label.as_str());
        text::push_text(&mut title, "”接收");
        assert(title@ =~= "ClipFerry · 从“"@ + snapshot.active_peer_label@ + "”接收"@);
        let cancel = match transfer.state {
            ProductTransferState::Completed => "完成",
            ProductTransferState::Cancelled | ProductTransferState::Failed => "关闭",
            _ => "取消",
        };
        let color = match transfer.state {
            ProductTransferState::Paused => ProgressColor::Paused,
            ProductTransferState::Cancelled | ProductTransferState::Failed => ProgressColor::Error,
            _ => ProgressColor::Normal,
        };
        let running = transfer.state == ProductTransferState::Running;
        let paused = transfer.state == ProductTransferState::Paused;
        Some(
            WindowContent {
                title,
                heading: heading_of(manifest),
                state: state_of(transfer),
                amount: amount_of(transfer),
                speed: speed_of(transfer),
                current_file: current_file_of(transfer),
                recovery: recovery_of(transfer),
                cancel,
                tenths: progress_tenths(
                    transfer.transferred,
                    transfer.total_size,
                    transfer.state,
                ),
                color,
                can_pause: running,
                can_resume: paused,
                appear: (running || paused) && !self.hidden_by_user && !visible,
            },
        )
    }

    /// The user asked for the window.
    pub fn show(&mut self)
        ensures
            *final(self) == (TransferWindow { hidden_by_user: false, ..*old(self) }),
    {
        self.hidden_by_user = false;
    }

    /// What the window does with a message.
    pub open spec fn action(
        self,
        commands: TransferWindowCommands,
        message: u32,
        wparam: usize,
    ) -> WindowAction {
        let control = wparam % 0x1_0000;
        if message == WM_COMMAND {
            if control == CONTROL_PAUSE {
                WindowAction::Send { command: commands.pause }
            } else if control == CONTROL_RESUME {
                WindowAction::Send { command: commands.resume }
            } else if control == CONTROL_CANCEL {
                if self.primary_is_close {
                    WindowAction::Hide
                } else {
                    WindowAction::SendAndHide { command: commands.cancel }
                }
            } else {
                WindowAction::Handled
            }
        } else if message == WM_CLOSE {
            WindowAction::Hide
        } else if message == WM_SYSCOMMAND && wparam <= u32::MAX && wparam % 0x1_0000 / 16 * 16
            == SC_MINIMIZE {
            WindowAction::Hide
        } else {
            WindowAction::Default
        }
    }

    /// Handles a message: buttons send their commands, and what would close or shrink the window
    /// hides it.
    pub fn handle(&mut self, commands: TransferWindowCommands, message: u32, wparam: usize) -> (
    action: WindowAction)
        ensures
            action == old(self).action(commands, message, wparam),
            *final(self) == old(self).once(action),
    {
        let control: usize = wparam % 0x1_0000;
        if message == WM_COMMAND {
            if control == CONTROL_PAUSE {
                return WindowAction::Send { command: commands.pause };
            }
            if control == CONTROL_RESUME {
                return WindowAction::Send { command: commands.resume };
            }
            if control == CONTROL_CANCEL {
                self.hidden_by_user = true;
                return if self.primary_is_close {
                    WindowAction::Hide
                } else {
                    WindowAction::SendAndHide { command: commands.cancel }
                };
            }
            return WindowAction::Handled;
        }
        if message == WM_CLOSE {
            self.hidden_by_user = true;
            return WindowAction::Hide;
        }
        if message == WM_SYSCOMMAND && wparam <= u32::MAX as usize && control / 16 * 16
            == SC_MINIMIZE as usize {
            self.hidden_by_user = true;
            return WindowAction::Hide;
        }
        WindowAction::Default
    }
}

/// How far a transfer is never exceeds the whole, and reaches it only when it is all there.
pub proof fn lemma_progress_is_bounded(transferred: u64, total: u64, state: ProductTransferState)
    requires
        total <= u64::MAX / 1000,
    ensures
        0 <= tenths(transferred, total, state) <= 1000,
        total > 0 ==> (tenths(transferred, total, state) == 1000 <==> transferred >= total),
{
    if total > 0 {
        let part = least(transferred as int, total as int);
        lemma_tenths_bounded(part as u64, total);
        assert(1000 * part / total as int == 1000 <==> part == total) by (nonlinear_arith)
            requires
                0 <= part <= total,
                total > 0,
        ;
    }
}

/// A window that the user hid stays hidden through the transfer that it shows.
pub proof fn lemma_hidden_window_stays_hidden(
    window: TransferWindow,
    generation: u64,
    state: ProductTransferState,
)
    requires
        window.hidden_by_user,
        window.generation == Some(generation),
    ensures
        window.showing(generation, state).hidden_by_user,
{
}

/// Closing, shrinking and the last button never leave the window in the user's way, and nothing
/// but the last button of a transfer that is not over cancels it.
pub proof fn lemma_only_the_button_cancels(
    window: TransferWindow,
    commands: TransferWindowCommands,
    message: u32,
    wparam: usize,
)
    ensures
        window.action(commands, message, wparam) is SendAndHide ==> message == WM_COMMAND
            && wparam % 0x1_0000 == CONTROL_CANCEL && !window.primary_is_close,
        message == WM_CLOSE ==> window.action(commands, message, wparam) is Hide,
{
}

/// The time that is left is that in which the bytes that are left go over at the speed at hand, in
/// whole seconds and not a moment less: in hours and minutes from an hour on, in minutes and seconds
/// from a minute on, else in seconds.
pub proof fn lemma_time_that_is_left(transfer: ProductTransferSnapshot) -> (left: (int, int, int))
    requires
        !(transfer.state is Completed),
        !(transfer.state is Paused),
        transfer.bytes_per_second > 0,
    ensures
        ({
            let (hours, minutes, seconds) = left;
            let time = 3600 * hours + 60 * minutes + seconds;
            let bytes = if transfer.transferred < transfer.total_size {
                transfer.total_size - transfer.transferred
            } else {
                0
            };
            &&& 0 <= hours
            &&& 0 <= minutes < 60
            &&& 0 <= seconds < 60
            &&& (time - 1) * transfer.bytes_per_second < bytes <= time * transfer.bytes_per_second
            &&& hours > 0 ==> remaining_text(transfer) == text::decimal(hours as nat) + " 小时 "@
                + text::decimal(minutes as nat) + " 分"@
            &&& hours == 0 && minutes > 0 ==> remaining_text(transfer) == text::decimal(minutes as nat)
                + " 分 "@ + text::decimal(seconds as nat) + " 秒"@
            &&& hours == 0 && minutes == 0 ==> remaining_text(transfer) == text::decimal(seconds as nat)
                + " 秒"@
        }),
{
    let rate = transfer.bytes_per_second as int;
    let bytes = if transfer.transferred < transfer.total_size {
        transfer.total_size - transfer.transferred
    } else {
        0
    };
    let time = quotient_up(bytes, rate);
    vstd::arithmetic::div_mod::lemma_fundamental_div_mod(bytes, rate);
    vstd::arithmetic::div_mod::lemma_mod_bound(bytes, rate);
    let quotient = bytes / rate;
    let rest = bytes % rate;
    assert((time - 1) * rate < bytes <= time * rate && 0 <= time) by (nonlinear_arith)
        requires
            bytes == rate * quotient + rest,
            0 <= rest < rate,
            0 <= bytes,
            time == if rest == 0 {
                quotient
            } else {
                quotient + 1
            },
    ;
    (time / 3600, time % 3600 / 60, time % 60)
}

/// Where nothing is left to wait for, or nothing can be said of it, the text says so.
pub proof fn lemma_time_without_end(transfer: ProductTransferSnapshot)
    ensures
        transfer.state is Completed ==> remaining_text(transfer) == "已完成"@,
        transfer.state is Paused ==> remaining_text(transfer) == "已暂停"@,
        !(transfer.state is Completed) && !(transfer.state is Paused) && transfer.bytes_per_second == 0
            ==> remaining_text(transfer) == "计算中"@,
{
}

/// A number of bytes is written in the largest unit that it reaches, rounded down: with two digits
/// behind the point for GiB, with one for MiB and KiB, and in full below.
pub proof fn lemma_sizes_in_words(bytes: u64) -> (parts: (int, int))
    ensures
        ({
            let (whole, fraction) = parts;
            &&& 0 <= whole
            &&& bytes >= 1_073_741_824 ==> {
                &&& (100 * whole + fraction) * 1_073_741_824 <= 100 * bytes < (100 * whole + fraction + 1)
                    * 1_073_741_824
                &&& 0 <= fraction < 100
                &&& bytes_text(bytes) == text::decimal(whole as nat) + "."@ + text::decimal(
                    (fraction / 10) as nat,
                ) + text::decimal((fraction % 10) as nat) + " "@ + "GiB"@
            }
            &&& 1_048_576 <= bytes < 1_073_741_824 ==> {
                &&& (10 * whole + fraction) * 1_048_576 <= 10 * bytes < (10 * whole + fraction + 1)
                    * 1_048_576
                &&& 0 <= fraction < 10
                &&& bytes_text(bytes) == text::decimal(whole as nat) + "."@ + text::decimal(
                    fraction as nat,
                ) + " "@ + "MiB"@
            }
            &&& 1024 <= bytes < 1_048_576 ==> {
                &&& (10 * whole + fraction) * 1024 <= 10 * bytes < (10 * whole + fraction + 1) * 1024
                &&& 0 <= fraction < 10
                &&& bytes_text(bytes) == text::decimal(whole as nat) + "."@ + text::decimal(
                    fraction as nat,
                ) + " "@ + "KiB"@
            }
            &&& bytes < 1024 ==> bytes_text(bytes) == text::decimal(bytes as nat) + " B"@
        }),
{
    reveal_with_fuel(power_of_ten, 3);
    reveal_with_fuel(text::decimal, 3);
    let count = bytes as int;
    if bytes >= 1_073_741_824 {
        let whole = count / 1_073_741_824;
        let fraction = count % 1_073_741_824 * 100 / 1_073_741_824;
        assert(padded(fraction as nat, 2) =~= text::decimal((fraction / 10) as nat) + text::decimal(
            (fraction % 10) as nat,
        ));
        assert(bytes_text(bytes) =~= text::decimal(whole as nat) + "."@ + text::decimal(
            (fraction / 10) as nat,
        ) + text::decimal((fraction % 10) as nat) + " "@ + "GiB"@);
        (whole, fraction)
    } else if bytes >= 1_048_576 {
        let fraction = count % 1_048_576 * 10 / 1_048_576;
        assert(padded(fraction as nat, 1) =~= text::decimal(fraction as nat));
        (count / 1_048_576, fraction)
    } else if bytes >= 1024 {
        let fraction = count % 1024 * 10 / 1024;
        assert(padded(fraction as nat, 1) =~= text::decimal(fraction as nat));
        (count / 1024, fraction)
    } else {
        (0, 0)
    }
}

/// A number of bytes in any unit is written as how often the unit goes into it, and so many digits
/// of what is left, rounded down.
pub proof fn lemma_scaled_sizes(bytes: u64, unit: u64, decimals: nat, suffix: Seq<char>) -> (parts: (
    int,
    int,
))
    requires
        0 < unit,
    ensures
        ({
            let (whole, fraction) = parts;
            &&& 0 <= whole
            &&& 0 <= fraction < power_of_ten(decimals)
            &&& whole * unit <= bytes < (whole + 1) * unit
            &&& fraction * unit <= (bytes - whole * unit) * power_of_ten(decimals) < (fraction + 1) * unit
            &&& scaled_text(bytes, unit, decimals, suffix) == text::decimal(whole as nat) + "."@ + padded(
                fraction as nat,
                decimals,
            ) + " "@ + suffix
        }),
{
    let count = bytes as int;
    let size = unit as int;
    let power = power_of_ten(decimals) as int;
    let whole = count / size;
    let rest = count % size;
    vstd::arithmetic::div_mod::lemma_fundamental_div_mod(count, size);
    vstd::arithmetic::div_mod::lemma_mod_bound(count, size);
    vstd::arithmetic::div_mod::lemma_fundamental_div_mod(rest * power, size);
    vstd::arithmetic::div_mod::lemma_mod_bound(rest * power, size);
    let fraction = rest * power / size;
    let over = rest * power % size;
    lemma_powers_grow(0, decimals);
    assert(whole * size <= count < (whole + 1) * size && rest == count - whole * size) by (nonlinear_arith)
        requires
            count == size * whole + rest,
            0 <= rest < size,
    ;
    assert(0 <= whole) by (nonlinear_arith)
        requires
            count == size * whole + rest,
            0 <= rest < size,
            0 <= count,
    ;
    assert(fraction * size <= rest * power < (fraction + 1) * size && 0 <= fraction < power)
        by (nonlinear_arith)
        requires
            rest * power == size * fraction + over,
            0 <= over < size,
            0 <= rest < size,
            0 < power,
    ;
    (whole, fraction)
}

/// How far a transfer is, in thousandths: rounded down, no more than all of it, and all of nothing
/// where nothing was to be transferred and that is done.
pub proof fn lemma_thousandths(transferred: u64, total: u64, state: ProductTransferState)
    ensures
        ({
            let done = tenths(transferred, total, state);
            let part = if transferred < total {
                transferred as int
            } else {
                total as int
            };
            &&& total > 0 && 1000 * part <= 0xffff_ffff_ffff_ffff ==> done * total <= 1000 * part < (done
                + 1) * total
            &&& total > 0 && 1000 * part > 0xffff_ffff_ffff_ffff ==> done * total <= 0xffff_ffff_ffff_ffff
                < (done + 1) * total
            &&& total == 0 ==> done == if state is Completed {
                1000int
            } else {
                0
            }
        }),
{
    if total > 0 {
        let part = if transferred < total {
            transferred as int
        } else {
            total as int
        };
        let counted = if 1000 * part <= 0xffff_ffff_ffff_ffff {
            1000 * part
        } else {
            0xffff_ffff_ffff_ffff
        };
        let whole = total as int;
        let done = counted / whole;
        let rest = counted % whole;
        vstd::arithmetic::div_mod::lemma_fundamental_div_mod(counted, whole);
        vstd::arithmetic::div_mod::lemma_mod_bound(counted, whole);
        assert(done * whole <= counted < (done + 1) * whole) by (nonlinear_arith)
            requires
                counted == whole * done + rest,
                0 <= rest < whole,
        ;
        assert(done == tenths(transferred, total, state));
    }
}

/// A text that is short enough stays as it is; of a longer one, as many characters as allowed stay,
/// and an ellipsis shows that there was more.
pub proof fn lemma_long_texts_are_cut(text: Seq<char>, limit: nat)
    ensures
        text.len() <= limit ==> truncated(text, limit) == text,
        text.len() > limit ==> {
            &&& truncated(text, limit).len() == limit + 1
            &&& truncated(text, limit).last() == '…'
            &&& forall|k: int| 0 <= k < limit ==> #[trigger] truncated(text, limit)[k] == text[k]
        },
{
    reveal_strlit("…");
}

/// The heading starts with the name, and tells how many files and how many directories there are.
pub proof fn lemma_heading_tells(manifest: ProductManifestSummary)
    ensures
        text::starts(heading_text(manifest), truncated(manifest.primary_name@, 72)),
        text::holds(heading_text(manifest), " · "@ + text::decimal(manifest.files as nat) + " 个文件"@),
        text::ends(heading_text(manifest), " / "@ + text::decimal(manifest.directories as nat) + " 个目录"@),
{
    let name = truncated(manifest.primary_name@, 72);
    let files = " · "@ + text::decimal(manifest.files as nat) + " 个文件"@;
    let directories = " / "@ + text::decimal(manifest.directories as nat) + " 个目录"@;
    reveal_strlit(" 个文件 / ");
    reveal_strlit(" 个文件");
    reveal_strlit(" / ");
    assert(" 个文件 / "@ =~= " 个文件"@ + " / "@);
    assert(heading_text(manifest) =~= name + files + directories);
    assert(heading_text(manifest) =~= name + (files + directories));
    text::lemma_holds(name, files, directories);
    text::lemma_holds(Seq::empty(), name, files + directories);
    text::lemma_holds(name + files, directories, Seq::empty());
}

/// The lines of the window name their numbers in the order in which they read: how far, how much of
/// how much, how fast now and on the whole, and how much longer.
pub proof fn lemma_lines_tell(transfer: ProductTransferSnapshot)
    ensures
        ({
            let done = tenths(transfer.transferred, transfer.total_size, transfer.state);
            &&& text::starts(state_text(transfer), transfer.state.spec_label())
            &&& text::ends(
                state_text(transfer),
                " · "@ + text::decimal((done / 10) as nat) + "."@ + text::decimal((done % 10) as nat)
                    + "%"@,
            )
        }),
        text::starts(amount_text(transfer), "已传输："@ + bytes_text(transfer.transferred)),
        text::ends(amount_text(transfer), " / "@ + bytes_text(transfer.total_size)),
        text::starts(speed_text(transfer), "当前速度："@ + bytes_text(transfer.bytes_per_second)),
        text::holds(
            speed_text(transfer),
            "/s    平均速度："@ + bytes_text(transfer.average_bytes_per_second) + "/s    剩余："@,
        ),
        text::ends(speed_text(transfer), "/s    剩余："@ + remaining_text(transfer)),
{
    let done = tenths(transfer.transferred, transfer.total_size, transfer.state);
    let figure = " · "@ + text::decimal((done / 10) as nat) + "."@ + text::decimal((done % 10) as nat)
        + "%"@;
    let label = transfer.state.spec_label();
    assert(state_text(transfer) =~= label + figure);
    text::lemma_holds(label, figure, Seq::empty());
    text::lemma_holds(Seq::empty(), label, figure);
    let amount = "已传输："@ + bytes_text(transfer.transferred);
    let total = " / "@ + bytes_text(transfer.total_size);
    assert(amount_text(transfer) =~= amount + total);
    text::lemma_holds(amount, total, Seq::empty());
    text::lemma_holds(Seq::empty(), amount, total);
    let speed = "当前速度："@ + bytes_text(transfer.bytes_per_second);
    let average = "/s    平均速度："@ + bytes_text(transfer.average_bytes_per_second) + "/s    剩余："@;
    let left = remaining_text(transfer);
    assert(speed_text(transfer) =~= speed + average + left);
    assert(speed_text(transfer) =~= speed + (average + left));
    text::lemma_holds(speed, average, left);
    text::lemma_holds(Seq::empty(), speed, average + left);
    let before = speed + ("/s    平均速度："@ + bytes_text(transfer.average_bytes_per_second));
    assert(speed_text(transfer) =~= before + ("/s    剩余："@ + left));
    text::lemma_holds(before, "/s    剩余："@ + left, Seq::empty());
}

/// The line on the file names it, or says that there is none yet, and ends with how many files were
/// started, which are never more than there are, out of all of them.
pub proof fn lemma_file_line_tells(transfer: ProductTransferSnapshot)
    ensures
        transfer.current_file_name is None ==> text::starts(
            current_file_text(transfer),
            "当前文件："@ + "尚未开始"@,
        ),
        transfer.current_file_name matches Some(name) ==> text::starts(
            current_file_text(transfer),
            "当前文件："@ + truncated(name@, 52),
        ),
        text::holds(
            current_file_text(transfer),
            "    "@ + bytes_text(transfer.current_file_transferred) + " / "@ + bytes_text(
                transfer.current_file_size,
            ) + "    "@,
        ),
        transfer.started_files <= transfer.total_files ==> text::ends(
            current_file_text(transfer),
            "    文件 "@ + text::decimal(transfer.started_files as nat) + "/"@ + text::decimal(
                transfer.total_files as nat,
            ),
        ),
        transfer.started_files > transfer.total_files ==> text::ends(
            current_file_text(transfer),
            "    文件 "@ + text::decimal(transfer.total_files as nat) + "/"@ + text::decimal(
                transfer.total_files as nat,
            ),
        ),
{
    let name = "当前文件："@ + (match transfer.current_file_name {
        None => "尚未开始"@,
        Some(name) => truncated(name@, 52),
    });
    let started = if transfer.started_files <= transfer.total_files {
        transfer.started_files
    } else {
        transfer.total_files
    };
    let sizes = "    "@ + bytes_text(transfer.current_file_transferred) + " / "@ + bytes_text(
        transfer.current_file_size,
    );
    let files = "    文件 "@ + text::decimal(started as nat) + "/"@ + text::decimal(
        transfer.total_files as nat,
    );
    reveal_strlit("    ");
    reveal_strlit("    文件 ");
    reveal_strlit("文件 ");
    let word = "文件 "@ + text::decimal(started as nat) + "/"@ + text::decimal(
        transfer.total_files as nat,
    );
    assert("    文件 "@ =~= "    "@ + "文件 "@);
    let line = current_file_text(transfer);
    assert(line =~= name + sizes + files);
    assert(line =~= name + (sizes + files));
    assert(line =~= name + (sizes + "    "@) + word);
    text::lemma_holds(Seq::empty(), name, sizes + files);
    text::lemma_holds(name, sizes + "    "@, word);
    text::lemma_holds(name + sizes, files, Seq::empty());
}

/// The line on the network tells whether it is being restored, was restored, or never failed; how
/// often that was tried; and what it saved.
pub proof fn lemma_network_line_tells(transfer: ProductTransferSnapshot)
    ensures
        transfer.recovery_active ==> text::starts(
            recovery_text(transfer),
            "网络状态：正在重连 · 已尝试 "@ + text::decimal(transfer.reconnect_attempts as nat) + " 次 · "@,
        ),
        !transfer.recovery_active && transfer.reconnect_attempts > 0 ==> text::starts(
            recovery_text(transfer),
            "网络状态：已恢复 · 共尝试 "@ + text::decimal(transfer.reconnect_attempts as nat) + " 次 · "@,
        ),
        transfer.recovery_active || transfer.reconnect_attempts > 0 ==> text::ends(
            recovery_text(transfer),
            "已恢复 "@ + text::decimal(transfer.recovered_commands as nat) + " 次命令"@,
        ),
        !transfer.recovery_active && transfer.reconnect_attempts == 0 ==> recovery_text(transfer)
            == "网络状态：稳定"@,
{
    reveal_strlit(" 次 · 已恢复 ");
    reveal_strlit(" 次 · ");
    reveal_strlit("已恢复 ");
    assert(" 次 · 已恢复 "@ =~= " 次 · "@ + "已恢复 "@);
    let saved = "已恢复 "@ + text::decimal(transfer.recovered_commands as nat) + " 次命令"@;
    let tried = (if transfer.recovery_active {
        "网络状态：正在重连 · 已尝试 "@
    } else {
        "网络状态：已恢复 · 共尝试 "@
    }) + text::decimal(transfer.reconnect_attempts as nat) + " 次 · "@;
    if transfer.recovery_active || transfer.reconnect_attempts > 0 {
        assert(recovery_text(transfer) =~= tried + saved);
        text::lemma_holds(tried, saved, Seq::empty());
        text::lemma_holds(Seq::empty(), tried, saved);
    }
}

/// A window shows whatever is received, but for an offer that was not pasted while another transfer
/// is shown. It comes up for a transfer that runs or is paused, where it cannot be seen and the user
/// did not hide it for this very transfer.
pub proof fn lemma_window_follows(
    window: TransferWindow,
    snapshot: ProductSnapshot,
    visible: bool,
    content: Option<WindowContent>,
    after: TransferWindow,
)
    requires
        window.updating(snapshot, visible, content, after),
    ensures
        snapshot.last_manifest is None || snapshot.transfer is None ==> content is None && after == window,
        snapshot.last_manifest matches Some(manifest) && manifest.direction@ != "接收"@ ==> content is None
            && after == window,
        snapshot.last_manifest is Some && snapshot.transfer is Some
            && snapshot.last_manifest->0.direction@ == "接收"@ ==> {
            let transfer = snapshot.transfer->0;
            let generation = snapshot.transfer_generation;
            if transfer.state is AwaitingPaste && window.generation is Some && window.generation != Some(
                generation,
            ) {
                content is None && after == window
            } else {
                let hidden = window.hidden_by_user && window.generation == Some(generation);
                &&& content is Some
                &&& after.generation == Some(generation)
                &&& after.hidden_by_user == hidden
                &&& after.primary_is_close == (transfer.state is Completed || transfer.state is Cancelled
                    || transfer.state is Failed)
                &&& content->0.appear == ((transfer.state is Running || transfer.state is Paused) && !hidden
                    && !visible)
                &&& content->0.can_pause == (transfer.state is Running)
                &&& content->0.can_resume == (transfer.state is Paused)
                &&& content->0.color is Paused == (transfer.state is Paused)
                &&& content->0.color is Error == (transfer.state is Cancelled || transfer.state is Failed)
                &&& content->0.title@ == "ClipFerry · 从“"@ + snapshot.active_peer_label@ + "”接收"@
                &&& transfer.state is Completed ==> content->0.cancel == "完成"
                &&& transfer.state is Cancelled || transfer.state is Failed ==> content->0.cancel == "关闭"
                &&& transfer.state is AwaitingPaste || transfer.state is Running || transfer.state is Paused
                    ==> content->0.cancel == "取消"
            }
        },
{
}

/// The three buttons send their commands, the last one only while the transfer is not over; closing
/// and shrinking the window hide it, and so does the last button. Nothing else does.
pub proof fn lemma_buttons(
    window: TransferWindow,
    commands: TransferWindowCommands,
    message: u32,
    wparam: usize,
)
    ensures
        ({
            let action = window.action(commands, message, wparam);
            let after = window.once(action);
            let button = wparam as int % 65_536;
            &&& message == 273 && button == 1 ==> action == (WindowAction::Send { command: commands.pause })
                && after == window
            &&& message == 273 && button == 2 ==> action == (WindowAction::Send { command: commands.resume })
                && after == window
            &&& message == 273 && button == 3 && !window.primary_is_close ==> action == (
            WindowAction::SendAndHide { command: commands.cancel }) && after.hidden_by_user
            &&& message == 273 && button == 3 && window.primary_is_close ==> action is Hide
                && after.hidden_by_user
            &&& message == 273 && (button == 0 || button > 3) ==> action is Handled && after == window
            &&& message == 16 ==> action is Hide && after.hidden_by_user
            &&& message == 274 && 61_472 <= wparam < 61_488 ==> action is Hide && after.hidden_by_user
            &&& message == 274 && wparam < 65_536 && !(61_472 <= wparam < 61_488) ==> action is Default
                && after == window
            &&& message != 16 && message != 273 && message != 274 ==> action is Default && after == window
            &&& after.generation == window.generation
            &&& after.primary_is_close == window.primary_is_close
        }),
{
}

} // verus!

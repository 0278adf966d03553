use vstd::prelude::*;

use crate::config::Client;

verus! {

/// One thing to do to a collector's window while its battery is replaced.
#[derive(Debug, Clone, Copy, PartialEq, Eq, Structural)]
pub enum BatteryStep {
    /// Show the minimized window again.
    Restore,
    /// Wait this many seconds.
    WaitSeconds(u64),
    /// Wait this many milliseconds.
    WaitMillis(u64),
    /// Put the cursor on this screen position and click the window there.
    Click(i32, i32),
    /// Press this key, hold it for the given milliseconds, and release it.
    PressKey(u64, u64),
    /// Minimize the window again.
    Minimize,
}

/// What comes before the window is located: a minimized window is shown
/// again, and the restore animation is given `modifier` seconds.
pub open spec fn prelude_steps(iconic: bool, modifier: u64) -> Seq<BatteryStep> {
    if iconic {
        seq![BatteryStep::Restore, BatteryStep::WaitSeconds(modifier)]
    } else {
        seq![]
    }
}

/// The arithmetic of [`battery_steps`] stays within the integer types.
pub open spec fn battery_steps_fit(offx: i32, offy: i32, modifier: u64, left: i32, top: i32) -> bool {
    &&& i32::MIN <= left + 83 <= i32::MAX
    &&& i32::MIN <= top + 187 <= i32::MAX
    &&& i32::MIN <= left + offx <= i32::MAX
    &&& i32::MIN <= left + offx + 30 <= i32::MAX
    &&& i32::MIN <= top + offy <= i32::MAX
    &&& 500 * modifier <= u64::MAX
}

/// What is done once the window's top left corner `(left, top)` is known:
/// click "Stop", press the battery key, click the extra window the server
/// shows, wait, confirm the replacement, wait, click "Start", and minimize
/// the window again if it was minimized.
pub open spec fn battery_steps(
    offx: i32,
    offy: i32,
    key: u64,
    modifier: u64,
    iconic: bool,
    left: i32,
    top: i32,
) -> Seq<BatteryStep> {
    let main = seq![
        BatteryStep::Click((left + 83) as i32, (top + 187) as i32),
        BatteryStep::PressKey(key, 500),
        BatteryStep::Click((left + offx + 30) as i32, (top + offy) as i32),
        BatteryStep::WaitMillis((200 * modifier) as u64),
        BatteryStep::Click((left + offx) as i32, (top + offy) as i32),
        BatteryStep::WaitMillis((500 * modifier) as u64),
        BatteryStep::Click((left + 83) as i32, (top + 187) as i32),
    ];
    if iconic {
        main.push(BatteryStep::Minimize)
    } else {
        main
    }
}

/// The steps before the window of a collector is located.
pub fn battery_prelude(iconic: bool, modifier: u64) -> (r: Vec<BatteryStep>)
    ensures
        r@ == prelude_steps(iconic, modifier),
        iconic ==> r@ == seq![BatteryStep::Restore, BatteryStep::WaitSeconds(modifier)],
        !iconic ==> r@.len() == 0,
{
    if iconic {
        vec![BatteryStep::Restore, BatteryStep::WaitSeconds(modifier)]
    } else {
        Vec::new()
    }
}

/// The steps that replace the battery of `client`, whose window has its top
/// left corner at `(left, top)`, with the battery bound to `key`.
pub fn change_battery(
    client: &Client,
    key: u64,
    modifier: u64,
    iconic: bool,
    left: i32,
    top: i32,
) -> (r: Vec<BatteryStep>)
    requires
        battery_steps_fit(client.offx, client.offy, modifier, left, top),
    ensures
        r@ == battery_steps(client.offx, client.offy, key, modifier, iconic, left, top),
        r@[0] == r@[6],
        (r@.last() == BatteryStep::Minimize) == iconic,
        r@.len() == if iconic {
            8int
        } else {
            7int
        },
        r@[0] == BatteryStep::Click((left + 83) as i32, (top + 187) as i32),
        r@[1] == BatteryStep::PressKey(key, 500),
        r@[2] == BatteryStep::Click((left + client.offx + 30) as i32, (top + client.offy) as i32),
        r@[3] == BatteryStep::WaitMillis((200 * modifier) as u64),
        r@[4] == BatteryStep::Click((left + client.offx) as i32, (top + client.offy) as i32),
        r@[5] == BatteryStep::WaitMillis((500 * modifier) as u64),
        iconic ==> r@[7] == BatteryStep::Minimize,
{
    let stop_start = BatteryStep::Click(left + 83, top + 187);
    let mut r: Vec<BatteryStep> = vec![
        stop_start,
        BatteryStep::PressKey(key, 500),
        BatteryStep::Click(left + client.offx + 30, top + client.offy),
        BatteryStep::WaitMillis(200 * modifier),
        BatteryStep::Click(left + client.offx, top + client.offy),
        BatteryStep::WaitMillis(500 * modifier),
        stop_start,
    ];
    if iconic {
        r.push(BatteryStep::Minimize);
    }
    assert(r@ =~= battery_steps(client.offx, client.offy, key, modifier, iconic, left, top));
    r
}

/// Whatever the window's state, the battery change stops the collector at
/// `(left + 83, top + 187)`, presses the chosen key for 500 ms, clicks the
/// extra window 30 pixels right of the button, waits `200 * modifier` ms,
/// confirms on the button, waits `500 * modifier` ms and starts the collector
/// where it was stopped; a minimized window is minimized again at the end.
pub proof fn lemma_battery_steps(
    offx: i32,
    offy: i32,
    key: u64,
    modifier: u64,
    iconic: bool,
    left: i32,
    top: i32,
)
    requires
        battery_steps_fit(offx, offy, modifier, left, top),
    ensures
        ({
            let s = battery_steps(offx, offy, key, modifier, iconic, left, top);
            &&& s.len() == if iconic {
                8int
            } else {
                7int
            }
            &&& s[0] == BatteryStep::Click((left + 83) as i32, (top + 187) as i32)
            &&& s[1] == BatteryStep::PressKey(key, 500)
            &&& s[2] == BatteryStep::Click((left + offx + 30) as i32, (top + offy) as i32)
            &&& s[3] == BatteryStep::WaitMillis((200 * modifier) as u64)
            &&& s[4] == BatteryStep::Click((left + offx) as i32, (top + offy) as i32)
            &&& s[5] == BatteryStep::WaitMillis((500 * modifier) as u64)
            &&& s[6] == s[0]
            &&& iconic ==> s[7] == BatteryStep::Minimize
        }),
{
}

} // verus!

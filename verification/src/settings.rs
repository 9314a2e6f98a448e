//! When changed window settings are written: a change waits for a short
//! quiet period, and is written once it has stayed the same that long.
//!
//! Times are milliseconds on a monotonic clock; whether two settings are
//! equal is decided by the caller.
use vstd::prelude::*;

verus! {

/// How long a change must stay unchanged before it is written.
pub const UI_CONFIG_SAVE_DELAY_MILLIS: u64 = 350;

/// What to do with the current settings.
#[derive(Clone, Copy, Debug, PartialEq, Eq, Structural)]
pub enum UiConfigSavePlan {
    /// They are the saved ones; nothing is pending.
    NoChange,
    /// They become pending, to be written at `save_at`.
    SetPending { save_at: u64 },
    /// They are already pending until `save_at`.
    KeepPending { save_at: u64 },
    /// They have been pending long enough: write them.
    Save,
}

/// The plan for the current settings, given whether they equal the saved
/// ones, the pending ones (whether those equal the current ones, and when
/// they are due) and the time now.
pub open spec fn save_plan(current_is_saved: bool, pending: Option<(bool, u64)>, now: u64) -> UiConfigSavePlan {
    if current_is_saved {
        UiConfigSavePlan::NoChange
    } else {
        match pending {
            Some((same, save_at)) => if same {
                if save_at <= now {
                    UiConfigSavePlan::Save
                } else {
                    UiConfigSavePlan::KeepPending { save_at }
                }
            } else {
                UiConfigSavePlan::SetPending { save_at: (now + UI_CONFIG_SAVE_DELAY_MILLIS) as u64 }
            },
            None => UiConfigSavePlan::SetPending { save_at: (now + UI_CONFIG_SAVE_DELAY_MILLIS) as u64 },
        }
    }
}

pub fn ui_config_save_plan(current_is_saved: bool, pending: Option<(bool, u64)>, now: u64) -> (r: UiConfigSavePlan)
    requires
        now + UI_CONFIG_SAVE_DELAY_MILLIS <= u64::MAX,
    ensures
        r == save_plan(current_is_saved, pending, now),
{
    if current_is_saved {
        UiConfigSavePlan::NoChange
    } else {
        match pending {
            Some((same, save_at)) => {
                if same {
                    if save_at <= now {
                        UiConfigSavePlan::Save
                    } else {
                        UiConfigSavePlan::KeepPending { save_at }
                    }
                } else {
                    UiConfigSavePlan::SetPending { save_at: now + UI_CONFIG_SAVE_DELAY_MILLIS }
                }
            },
            None => UiConfigSavePlan::SetPending { save_at: now + UI_CONFIG_SAVE_DELAY_MILLIS },
        }
    }
}

/// A change is written only after it has been pending: a plan that writes
/// needs pending settings equal to the current ones and due; a change that
/// is first seen is never written at once but scheduled a full delay later;
/// and when pending settings stay the same, the plan stays pending until
/// they are due, then writes them.
pub proof fn lemma_save_plan_debounces(pending: Option<(bool, u64)>, now: u64, later: u64)
    requires
        now + UI_CONFIG_SAVE_DELAY_MILLIS <= u64::MAX,
    ensures
        save_plan(false, pending, now) == UiConfigSavePlan::Save ==> (pending matches Some((same, due))
            && same && due <= now),
        save_plan(false, None, now) == (UiConfigSavePlan::SetPending {
            save_at: (now + UI_CONFIG_SAVE_DELAY_MILLIS) as u64,
        }),
        save_plan(false, pending, now) matches UiConfigSavePlan::SetPending { save_at } ==> now < save_at,
        later >= (now + UI_CONFIG_SAVE_DELAY_MILLIS) ==> save_plan(
            false,
            Some((true, (now + UI_CONFIG_SAVE_DELAY_MILLIS) as u64)),
            later,
        ) == UiConfigSavePlan::Save,
{
}

} // verus!

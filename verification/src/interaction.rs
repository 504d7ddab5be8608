//! The interaction state machine: which keyboard actions are valid in which
//! mode, and what they do.
//!
//! Resolution is a pure function of the mode, the resolved action name and
//! the session-scoped skip-confirmation flag; the orchestrator carries out
//! the returned effect.

use vstd::prelude::*;
use crate::catalog::Direction;

verus! {

/// Exactly one mode is active at a time; the viewer starts in `Normal`.
#[derive(Clone, Copy, Debug, PartialEq, Eq, Structural)]
pub enum InteractionMode {
    Normal,
    DeleteConfirmation,
}

/// The resolved logical action of one key press.
#[derive(Clone, Copy, Debug, PartialEq, Eq, Structural)]
pub enum Action {
    Exit,
    NextImage,
    PreviousImage,
    SetWallpaper,
    DeleteImage,
    ConfirmDelete,
    CancelDelete,
    AlwaysDelete,
}

/// What the orchestrator must carry out after resolving a key press.
#[derive(Clone, Copy, Debug, PartialEq, Eq)]
pub enum Effect {
    RequestExit,
    Navigate(Direction),
    SetWallpaper,
    DeleteNow,
    ShowDeleteConfirmation,
    CancelDelete,
}

/// The outcome of resolving one action: the next mode, the effect to carry
/// out (if any), and the skip-confirmation flag threaded through.
#[derive(Clone, Copy, Debug, PartialEq, Eq)]
pub struct Resolution {
    pub new_mode: InteractionMode,
    pub effect: Option<Effect>,
    pub skip_confirm: bool,
}

/// The transition table. Any combination it does not list leaves the mode
/// and the flag unchanged and carries no effect.
pub open spec fn spec_resolve(mode: InteractionMode, action: Action, skip_confirm: bool) -> Resolution {
    match (mode, action) {
        (InteractionMode::Normal, Action::Exit) => Resolution {
            new_mode: InteractionMode::Normal,
            effect: Some(Effect::RequestExit),
            skip_confirm,
        },
        (InteractionMode::Normal, Action::NextImage) => Resolution {
            new_mode: InteractionMode::Normal,
            effect: Some(Effect::Navigate(Direction::Next)),
            skip_confirm,
        },
        (InteractionMode::Normal, Action::PreviousImage) => Resolution {
            new_mode: InteractionMode::Normal,
            effect: Some(Effect::Navigate(Direction::Previous)),
            skip_confirm,
        },
        (InteractionMode::Normal, Action::SetWallpaper) => Resolution {
            new_mode: InteractionMode::Normal,
            effect: Some(Effect::SetWallpaper),
            skip_confirm,
        },
        (InteractionMode::Normal, Action::DeleteImage) => if skip_confirm {
            Resolution {
                new_mode: InteractionMode::Normal,
                effect: Some(Effect::DeleteNow),
                skip_confirm,
            }
        } else {
            Resolution {
                new_mode: InteractionMode::DeleteConfirmation,
                effect: Some(Effect::ShowDeleteConfirmation),
                skip_confirm,
            }
        },
        (InteractionMode::DeleteConfirmation, Action::ConfirmDelete) => Resolution {
            new_mode: InteractionMode::Normal,
            effect: Some(Effect::DeleteNow),
            skip_confirm,
        },
        (InteractionMode::DeleteConfirmation, Action::CancelDelete) => Resolution {
            new_mode: InteractionMode::Normal,
            effect: Some(Effect::CancelDelete),
            skip_confirm,
        },
        (InteractionMode::DeleteConfirmation, Action::AlwaysDelete) => Resolution {
            new_mode: InteractionMode::Normal,
            effect: Some(Effect::DeleteNow),
            skip_confirm: true,
        },
        _ => Resolution { new_mode: mode, effect: None, skip_confirm },
    }
}

/// Resolves one key press: follows the transition table exactly.
pub fn resolve(mode: InteractionMode, action: Action, skip_confirm: bool) -> (r: Resolution)
    ensures
        r == spec_resolve(mode, action, skip_confirm),
{
    match (mode, action) {
        (InteractionMode::Normal, Action::Exit) => Resolution {
            new_mode: InteractionMode::Normal,
            effect: Some(Effect::RequestExit),
            skip_confirm,
        },
        (InteractionMode::Normal, Action::NextImage) => Resolution {
            new_mode: InteractionMode::Normal,
            effect: Some(Effect::Navigate(Direction::Next)),
            skip_confirm,
        },
        (InteractionMode::Normal, Action::PreviousImage) => Resolution {
            new_mode: InteractionMode::Normal,
            effect: Some(Effect::Navigate(Direction::Previous)),
            skip_confirm,
        },
        (InteractionMode::Normal, Action::SetWallpaper) => Resolution {
            new_mode: InteractionMode::Normal,
            effect: Some(Effect::SetWallpaper),
            skip_confirm,
        },
        (InteractionMode::Normal, Action::DeleteImage) => {
            if skip_confirm {
                Resolution {
                    new_mode: InteractionMode::Normal,
                    effect: Some(Effect::DeleteNow),
                    skip_confirm,
                }
            } else {
                Resolution {
                    new_mode: InteractionMode::DeleteConfirmation,
                    effect: Some(Effect::ShowDeleteConfirmation),
                    skip_confirm,
                }
            }
        }
        (InteractionMode::DeleteConfirmation, Action::ConfirmDelete) => Resolution {
            new_mode: InteractionMode::Normal,
            effect: Some(Effect::DeleteNow),
            skip_confirm,
        },
        (InteractionMode::DeleteConfirmation, Action::CancelDelete) => Resolution {
            new_mode: InteractionMode::Normal,
            effect: Some(Effect::CancelDelete),
            skip_confirm,
        },
        (InteractionMode::DeleteConfirmation, Action::AlwaysDelete) => Resolution {
            new_mode: InteractionMode::Normal,
            effect: Some(Effect::DeleteNow),
            skip_confirm: true,
        },
        _ => Resolution { new_mode: mode, effect: None, skip_confirm },
    }
}

/// The text shown when the confirmation modal opens.
pub fn confirmation_prompt() -> (r: &'static str)
    ensures
        r@ == "Delete confirmation: y=Yes, n=No, a=Don't ask again"@,
{
    "Delete confirmation: y=Yes, n=No, a=Don't ask again"
}

/// A delete request without the flag set only opens the confirmation modal:
/// nothing is deleted, and the mode flips to `DeleteConfirmation`; cancelling
/// from there returns to `Normal`, again deleting nothing.
pub proof fn lemma_confirmation_gates_delete()
    ensures
        ({
            let opened = spec_resolve(InteractionMode::Normal, Action::DeleteImage, false);
            &&& opened.new_mode == InteractionMode::DeleteConfirmation
            &&& opened.effect == Some(Effect::ShowDeleteConfirmation)
            &&& !opened.skip_confirm
        }),
        ({
            let cancelled = spec_resolve(
                InteractionMode::DeleteConfirmation,
                Action::CancelDelete,
                false,
            );
            &&& cancelled.new_mode == InteractionMode::Normal
            &&& cancelled.effect == Some(Effect::CancelDelete)
            &&& !cancelled.skip_confirm
        }),
{
}

/// Answering the confirmation with "always delete" deletes now, returns to
/// `Normal`, and sets the session flag, so that the next delete request in
/// `Normal` deletes immediately without opening the confirmation again.
pub proof fn lemma_always_delete_skips_confirmation(skip_confirm: bool)
    ensures
        ({
            let first = spec_resolve(
                InteractionMode::DeleteConfirmation,
                Action::AlwaysDelete,
                skip_confirm,
            );
            let second = spec_resolve(InteractionMode::Normal, Action::DeleteImage, first.skip_confirm);
            &&& first.new_mode == InteractionMode::Normal
            &&& first.effect == Some(Effect::DeleteNow)
            &&& first.skip_confirm
            &&& second.new_mode == InteractionMode::Normal
            &&& second.effect == Some(Effect::DeleteNow)
            &&& second.skip_confirm
        }),
{
}

} // verus!

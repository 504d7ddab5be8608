use eleviewr::catalog::Direction;
use eleviewr::interaction::{resolve, Action, Effect, InteractionMode};

#[test]
fn normal_mode_dispatches_basic_actions() {
    let r = resolve(InteractionMode::Normal, Action::Exit, false);
    assert_eq!(r.effect, Some(Effect::RequestExit));
    assert_eq!(r.new_mode, InteractionMode::Normal);

    let r = resolve(InteractionMode::Normal, Action::NextImage, false);
    assert_eq!(r.effect, Some(Effect::Navigate(Direction::Next)));
    assert_eq!(r.new_mode, InteractionMode::Normal);

    let r = resolve(InteractionMode::Normal, Action::PreviousImage, false);
    assert_eq!(r.effect, Some(Effect::Navigate(Direction::Previous)));

    let r = resolve(InteractionMode::Normal, Action::SetWallpaper, false);
    assert_eq!(r.effect, Some(Effect::SetWallpaper));
}

#[test]
fn delete_without_flag_opens_confirmation_without_deleting() {
    let r = resolve(InteractionMode::Normal, Action::DeleteImage, false);
    assert_eq!(r.new_mode, InteractionMode::DeleteConfirmation);
    assert_eq!(r.effect, Some(Effect::ShowDeleteConfirmation));
    assert!(!r.skip_confirm);
}

#[test]
fn delete_with_flag_deletes_immediately() {
    let r = resolve(InteractionMode::Normal, Action::DeleteImage, true);
    assert_eq!(r.new_mode, InteractionMode::Normal);
    assert_eq!(r.effect, Some(Effect::DeleteNow));
    assert!(r.skip_confirm);
}

#[test]
fn confirmation_mode_answers() {
    let r = resolve(InteractionMode::DeleteConfirmation, Action::ConfirmDelete, false);
    assert_eq!(r.new_mode, InteractionMode::Normal);
    assert_eq!(r.effect, Some(Effect::DeleteNow));
    assert!(!r.skip_confirm);

    let r = resolve(InteractionMode::DeleteConfirmation, Action::CancelDelete, false);
    assert_eq!(r.new_mode, InteractionMode::Normal);
    assert_eq!(r.effect, Some(Effect::CancelDelete));
    assert!(!r.skip_confirm);
}

#[test]
fn always_delete_sets_session_flag_for_later_deletes() {
    let first = resolve(InteractionMode::DeleteConfirmation, Action::AlwaysDelete, false);
    assert_eq!(first.new_mode, InteractionMode::Normal);
    assert_eq!(first.effect, Some(Effect::DeleteNow));
    assert!(first.skip_confirm);

    let second = resolve(InteractionMode::Normal, Action::DeleteImage, first.skip_confirm);
    assert_eq!(second.new_mode, InteractionMode::Normal);
    assert_eq!(second.effect, Some(Effect::DeleteNow));
    assert!(second.skip_confirm);
}

#[test]
fn unlisted_combinations_do_nothing() {
    let r = resolve(InteractionMode::Normal, Action::ConfirmDelete, false);
    assert_eq!(r.new_mode, InteractionMode::Normal);
    assert_eq!(r.effect, None);

    let r = resolve(InteractionMode::Normal, Action::CancelDelete, true);
    assert_eq!(r.new_mode, InteractionMode::Normal);
    assert_eq!(r.effect, None);
    assert!(r.skip_confirm);

    let r = resolve(InteractionMode::DeleteConfirmation, Action::NextImage, false);
    assert_eq!(r.new_mode, InteractionMode::DeleteConfirmation);
    assert_eq!(r.effect, None);

    let r = resolve(InteractionMode::DeleteConfirmation, Action::Exit, false);
    assert_eq!(r.new_mode, InteractionMode::DeleteConfirmation);
    assert_eq!(r.effect, None);
}

#[test]
fn confirmation_prompt_text() {
    assert_eq!(
        eleviewr::interaction::confirmation_prompt(),
        "Delete confirmation: y=Yes, n=No, a=Don't ask again"
    );
}

use eleviewr::errors::ViewerError;
use eleviewr::wallpaper::{
    apply_args, preload_args, wallpaper_outcome, wallpaper_step, wallpaper_tool, WallpaperPhase,
};

#[test]
fn preload_command_line() {
    assert_eq!(wallpaper_tool(), "hyprctl");
    let args = preload_args(&"/pics/wall.png".to_string());
    assert_eq!(args, vec!["hyprpaper", "preload", "/pics/wall.png"]);
}

#[test]
fn apply_command_line_targets_all_outputs() {
    let args = apply_args(&"/pics/wall.png".to_string());
    assert_eq!(args, vec!["hyprpaper", "wallpaper", ",/pics/wall.png"]);
}

#[test]
fn protocol_succeeds_only_when_both_steps_do() {
    for &(preload_ok, apply_ok) in
        &[(true, true), (true, false), (false, true), (false, false)]
    {
        let after_preload = wallpaper_step(WallpaperPhase::Preload, preload_ok);
        let after_apply = wallpaper_step(after_preload, apply_ok);
        if preload_ok && apply_ok {
            assert_eq!(after_apply, WallpaperPhase::Done);
            assert!(wallpaper_outcome(after_apply).is_ok());
        } else {
            assert_eq!(after_apply, WallpaperPhase::Failed);
            assert_eq!(
                wallpaper_outcome(after_apply),
                Err(ViewerError::ExternalToolFailure)
            );
        }
    }
}

#[test]
fn preload_failure_is_final() {
    let failed = wallpaper_step(WallpaperPhase::Preload, false);
    assert_eq!(failed, WallpaperPhase::Failed);
    assert_eq!(wallpaper_step(failed, true), WallpaperPhase::Failed);
    assert_eq!(
        wallpaper_outcome(WallpaperPhase::Preload),
        Err(ViewerError::ExternalToolFailure)
    );
}

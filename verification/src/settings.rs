use vstd::prelude::*;
use vstd::string::StringExecFns;
use crate::error::{AppError, ErrorCode};

verus! {

/// The preferences of the user. The zoom factor, a floating-point number, is held next to
/// these fields by the caller.
pub struct Settings {
    /// `light`, `dark` or `system`.
    pub theme: String,
    pub window_radius: u32,
    pub startup: bool,
    /// `exit` or `tray`.
    pub close_action: String,
    /// `grid` or `list`.
    pub default_view: String,
    /// Chosen data directory; empty for the default one.
    pub data_root: String,
}

/// The themes that can be chosen.
pub open spec fn valid_theme(t: Seq<char>) -> bool {
    t == "light"@ || t == "dark"@ || t == "system"@
}

pub open spec fn valid_close_action(a: Seq<char>) -> bool {
    a == "exit"@ || a == "tray"@
}

pub open spec fn valid_view(v: Seq<char>) -> bool {
    v == "grid"@ || v == "list"@
}

/// What checking settings gives: the first rule that the settings break, in the order
/// theme, window radius, zoom, close action, default view; or success.
pub open spec fn validation_result(s: Settings, zoom_in_range: bool, res: Result<(), AppError>) -> bool {
    if !valid_theme(s.theme@) {
        res matches Err(e) && e.is_business(
            ErrorCode::InvalidInput,
            "无效的主题设置: "@ + s.theme@,
        )
    } else if s.window_radius > 50 {
        res matches Err(e) && e.is_business(ErrorCode::InvalidInput, "窗口圆角不能超过 50px"@)
    } else if !zoom_in_range {
        res matches Err(e) && e.is_business(
            ErrorCode::InvalidInput,
            "缩放比例必须在 0.5-3.0 之间"@,
        )
    } else if !valid_close_action(s.close_action@) {
        res matches Err(e) && e.is_business(
            ErrorCode::InvalidInput,
            "无效的关闭行为设置: "@ + s.close_action@,
        )
    } else if !valid_view(s.default_view@) {
        res matches Err(e) && e.is_business(
            ErrorCode::InvalidInput,
            "无效的默认视图设置: "@ + s.default_view@,
        )
    } else {
        res is Ok
    }
}

fn is_one_of(s: &String, a: &str, b: &str) -> (r: bool)
    ensures
        r == (s@ == a@ || s@ == b@),
{
    *s == String::from_str(a) || *s == String::from_str(b)
}

fn invalid_with(prefix: &str, value: &String) -> (e: AppError)
    ensures
        e.is_business(ErrorCode::InvalidInput, prefix@ + value@),
{
    let mut m = String::from_str(prefix);
    m.append(value.as_str());
    AppError::new(ErrorCode::InvalidInput, m)
}

/// Checks settings before they are saved. `zoom_in_range` tells whether the zoom factor
/// lies between 0.5 and 3.0.
pub fn validate_settings(settings: &Settings, zoom_in_range: bool) -> (res: Result<(), AppError>)
    ensures
        validation_result(*settings, zoom_in_range, res),
{
    if !(is_one_of(&settings.theme, "light", "dark") || settings.theme == String::from_str(
        "system",
    )) {
        return Err(invalid_with("无效的主题设置: ", &settings.theme));
    }
    if settings.window_radius > 50 {
        return Err(AppError::new(ErrorCode::InvalidInput, String::from_str("窗口圆角不能超过 50px")));
    }
    if !zoom_in_range {
        return Err(
            AppError::new(ErrorCode::InvalidInput, String::from_str("缩放比例必须在 0.5-3.0 之间")),
        );
    }
    if !is_one_of(&settings.close_action, "exit", "tray") {
        return Err(invalid_with("无效的关闭行为设置: ", &settings.close_action));
    }
    if !is_one_of(&settings.default_view, "grid", "list") {
        return Err(invalid_with("无效的默认视图设置: ", &settings.default_view));
    }
    Ok(())
}

impl Default for Settings {
    /// Follow the system theme, rounded corners of 14px, no start with the system, close to
    /// the tray, grid view, default data directory.
    fn default() -> (s: Self)
        ensures
            s.theme@ == "system"@,
            s.window_radius == 14,
            !s.startup,
            s.close_action@ == "tray"@,
            s.default_view@ == "grid"@,
            s.data_root@ == Seq::<char>::empty(),
    {
        Settings {
            theme: String::from_str("system"),
            window_radius: 14,
            startup: false,
            close_action: String::from_str("tray"),
            default_view: String::from_str("grid"),
            data_root: String::new(),
        }
    }
}

/// Settings pass the check exactly when the theme is `light`, `dark` or `system`, the
/// window radius is at most 50, the zoom factor is in range, the close action is `exit` or
/// `tray` and the default view is `grid` or `list`. A theme outside those three is refused
/// with an invalid-input error that names it, whatever the other fields hold.
pub proof fn law_settings_accepted_exactly(s: Settings, zoom_in_range: bool, res: Result<(), AppError>)
    requires
        validation_result(s, zoom_in_range, res),
    ensures
        res is Ok <==> ((s.theme@ == "light"@ || s.theme@ == "dark"@ || s.theme@ == "system"@)
            && s.window_radius <= 50 && zoom_in_range && (s.close_action@ == "exit"@
            || s.close_action@ == "tray"@) && (s.default_view@ == "grid"@ || s.default_view@
            == "list"@)),
        !(s.theme@ == "light"@ || s.theme@ == "dark"@ || s.theme@ == "system"@) ==> (res matches Err(
            e,
        ) && e.is_business(ErrorCode::InvalidInput, "无效的主题设置: "@ + s.theme@)),
{
}

/// The default settings pass the checks (with the default zoom factor, 1.0, in range).
pub proof fn law_default_settings_valid(s: Settings)
    requires
        s.theme@ == "system"@,
        s.window_radius == 14,
        s.close_action@ == "tray"@,
        s.default_view@ == "grid"@,
    ensures
        forall|res: Result<(), AppError>| validation_result(s, true, res) <==> res is Ok,
{
}

} // verus!

//! What the view shows, and the preferences.

use crate::arrivals::copy_text;
use crate::blast::DelayProduct;
use crate::document::Rgba;
use crate::error::AppError;
use crate::ieee::{f32_finite, f32_less, finite32, less32};
use crate::state::App;
use crate::survey::{copy_systems, system_models, SurveyPlan, SystemDefinition, SystemModel};
use crate::text::text_of;
use vstd::prelude::*;

verus! {

/// The language of the interface: that of the system, or one from the list.
#[derive(Clone, Copy, PartialEq, Eq, Structural, Debug)]
pub enum LanguageChoice {
    System,
    Listed(u16),
}

/// What the interface shows.
#[derive(Clone, Copy, PartialEq, Eq, Structural, Debug)]
pub struct InterfacePreferences {
    pub dark_mode: bool,
    pub show_console: bool,
    pub panel_chrome: bool,
    pub show_world_axis_gizmo: bool,
    pub show_xy_grid: bool,
    pub show_scale_bar: bool,
    pub renderer_background_color: Rgba,
}

/// How much work goes into a frame.
#[derive(Clone, Copy, PartialEq, Eq, Structural, Debug)]
pub struct FramePreferences {
    pub snap_poll_rate: u32,
    pub frame_rate_cap: u32,
    pub resize_frame_rate_cap: u32,
    pub block_model_interaction_resolution_divisor: u32,
    pub show_block_model_boundary_highlights: bool,
    pub downscale_raster_previews: bool,
}

/// What helps in finding faults.
#[derive(Clone, Copy, PartialEq, Eq, Structural, Debug)]
pub struct DebugPreferences {
    pub frame_counter_enabled: bool,
    pub debug_chunk_coloring: bool,
    pub debug_clip_planes: bool,
}

/// How the camera moves. Sensitivities, angles and distances are the bits of
/// an `f32`.
#[derive(Clone, Copy, PartialEq, Eq, Structural, Debug)]
pub struct CameraPreferences {
    pub plan_orbit_sensitivity: u32,
    pub plan_zoom_sensitivity: u32,
    pub plan_invert_vertical_look: bool,
    pub plan_invert_horizontal_look: bool,
    pub plan_zoom_towards_cursor: bool,
    pub fly_field_of_view_degrees: u32,
    pub fly_mouse_look_sensitivity: u32,
    pub fly_invert_vertical_look: bool,
    pub fly_invert_horizontal_look: bool,
    pub fly_near_clip_limit: u32,
    pub fly_max_clip_span: u32,
}

/// The preferences.
#[derive(Clone, Copy, PartialEq, Eq, Structural, Debug)]
pub struct Preferences {
    pub language: LanguageChoice,
    pub vsync_enabled: bool,
    pub interface: InterfacePreferences,
    pub frames: FramePreferences,
    pub debug: DebugPreferences,
    pub camera: CameraPreferences,
}

/// What stands in for a number of the preferences that is none.
#[derive(Clone, Copy, PartialEq, Eq, Structural, Debug)]
pub struct CameraDefaults {
    pub plan_orbit_sensitivity: u32,
    pub plan_zoom_sensitivity: u32,
    pub fly_field_of_view_degrees: u32,
    pub fly_mouse_look_sensitivity: u32,
    pub fly_near_clip_limit: u32,
    pub fly_max_clip_span: u32,
}

/// 0.0001 as an `f32`.
pub const F32_TENTHOUSANDTH: u32 = 0x38d1_b717;

/// 0.01 as an `f32`.
pub const F32_HUNDREDTH: u32 = 0x3c23_d70a;

/// 0.02 as an `f32`.
pub const F32_FIFTIETH: u32 = 0x3ca3_d70a;

/// 0.05 as an `f32`.
pub const F32_TWENTIETH: u32 = 0x3d4c_cccd;

/// 20 as an `f32`.
pub const F32_TWENTY: u32 = 0x41a0_0000;

/// 100 as an `f32`.
pub const F32_HUNDRED: u32 = 0x42c8_0000;

/// 120 as an `f32`.
pub const F32_HUNDRED_TWENTY: u32 = 0x42f0_0000;

/// 1000000 as an `f32`.
pub const F32_MILLION: u32 = 0x4974_2400;

/// A number within limits.
pub open spec fn clamped_count(n: u32, least: u32, most: u32) -> u32 {
    if n < least {
        least
    } else if n > most {
        most
    } else {
        n
    }
}

fn clamp_count(n: u32, least: u32, most: u32) -> (r: u32)
    ensures
        r == clamped_count(n, least, most),
{
    if n < least {
        least
    } else if n > most {
        most
    } else {
        n
    }
}

/// A number within limits; the default where it is none.
pub open spec fn clamped_number(v: u32, least: u32, most: u32, default: u32) -> u32 {
    if !f32_finite(v) {
        default
    } else if f32_less(v, least) {
        least
    } else if f32_less(most, v) {
        most
    } else {
        v
    }
}

/// A number within limits; the default where it is none.
pub fn finite_clamped(v: u32, least: u32, most: u32, default: u32) -> (r: u32)
    ensures
        r == clamped_number(v, least, most, default),
{
    if !finite32(v) {
        default
    } else if less32(v, least) {
        least
    } else if less32(most, v) {
        most
    } else {
        v
    }
}

/// A number is one, and within limits.
pub open spec fn within(v: u32, least: u32, most: u32) -> bool {
    f32_finite(v) && !f32_less(v, least) && !f32_less(most, v)
}

impl CameraDefaults {
    /// The defaults are within the limits.
    pub open spec fn sound(self) -> bool {
        &&& within(self.plan_orbit_sensitivity, F32_TENTHOUSANDTH, F32_FIFTIETH)
        &&& within(self.plan_zoom_sensitivity, F32_TENTHOUSANDTH, F32_TWENTIETH)
        &&& within(self.fly_field_of_view_degrees, F32_TWENTY, F32_HUNDRED_TWENTY)
        &&& within(self.fly_mouse_look_sensitivity, F32_TENTHOUSANDTH, F32_FIFTIETH)
        &&& within(self.fly_near_clip_limit, F32_HUNDREDTH, F32_HUNDRED)
        &&& within(self.fly_max_clip_span, F32_HUNDRED, F32_MILLION)
    }
}

impl FramePreferences {
    /// Every number is within its limits.
    pub open spec fn sound(self) -> bool {
        &&& 5 <= self.snap_poll_rate <= 1000
        &&& 20 <= self.frame_rate_cap <= 1000
        &&& 20 <= self.resize_frame_rate_cap <= 1000
        &&& 1 <= self.block_model_interaction_resolution_divisor <= 64
    }

    /// The preferences with every number within its limits.
    pub open spec fn clamped(self) -> FramePreferences {
        FramePreferences {
            snap_poll_rate: clamped_count(self.snap_poll_rate, 5, 1000),
            frame_rate_cap: clamped_count(self.frame_rate_cap, 20, 1000),
            resize_frame_rate_cap: clamped_count(self.resize_frame_rate_cap, 20, 1000),
            block_model_interaction_resolution_divisor: clamped_count(self.block_model_interaction_resolution_divisor, 1, 64),
            ..self
        }
    }

    fn clamp(self) -> (r: FramePreferences)
        ensures
            r == self.clamped(),
    {
        FramePreferences {
            snap_poll_rate: clamp_count(self.snap_poll_rate, 5, 1000),
            frame_rate_cap: clamp_count(self.frame_rate_cap, 20, 1000),
            resize_frame_rate_cap: clamp_count(self.resize_frame_rate_cap, 20, 1000),
            block_model_interaction_resolution_divisor: clamp_count(self.block_model_interaction_resolution_divisor, 1, 64),
            ..self
        }
    }
}

impl CameraPreferences {
    /// Every number is within its limits.
    pub open spec fn sound(self) -> bool {
        &&& within(self.plan_orbit_sensitivity, F32_TENTHOUSANDTH, F32_FIFTIETH)
        &&& within(self.plan_zoom_sensitivity, F32_TENTHOUSANDTH, F32_TWENTIETH)
        &&& within(self.fly_field_of_view_degrees, F32_TWENTY, F32_HUNDRED_TWENTY)
        &&& within(self.fly_mouse_look_sensitivity, F32_TENTHOUSANDTH, F32_FIFTIETH)
        &&& within(self.fly_near_clip_limit, F32_HUNDREDTH, F32_HUNDRED)
        &&& within(self.fly_max_clip_span, F32_HUNDRED, F32_MILLION)
    }

    /// The preferences with every number within its limits.
    pub open spec fn clamped(self, d: CameraDefaults) -> CameraPreferences {
        CameraPreferences {
            plan_orbit_sensitivity: clamped_number(self.plan_orbit_sensitivity, F32_TENTHOUSANDTH, F32_FIFTIETH, d.plan_orbit_sensitivity),
            plan_zoom_sensitivity: clamped_number(self.plan_zoom_sensitivity, F32_TENTHOUSANDTH, F32_TWENTIETH, d.plan_zoom_sensitivity),
            fly_field_of_view_degrees: clamped_number(self.fly_field_of_view_degrees, F32_TWENTY, F32_HUNDRED_TWENTY, d.fly_field_of_view_degrees),
            fly_mouse_look_sensitivity: clamped_number(
                self.fly_mouse_look_sensitivity,
                F32_TENTHOUSANDTH,
                F32_FIFTIETH,
                d.fly_mouse_look_sensitivity,
            ),
            fly_near_clip_limit: clamped_number(self.fly_near_clip_limit, F32_HUNDREDTH, F32_HUNDRED, d.fly_near_clip_limit),
            fly_max_clip_span: clamped_number(self.fly_max_clip_span, F32_HUNDRED, F32_MILLION, d.fly_max_clip_span),
            ..self
        }
    }

    fn clamp(self, d: CameraDefaults) -> (r: CameraPreferences)
        ensures
            r == self.clamped(d),
    {
        CameraPreferences {
            plan_orbit_sensitivity: finite_clamped(self.plan_orbit_sensitivity, F32_TENTHOUSANDTH, F32_FIFTIETH, d.plan_orbit_sensitivity),
            plan_zoom_sensitivity: finite_clamped(self.plan_zoom_sensitivity, F32_TENTHOUSANDTH, F32_TWENTIETH, d.plan_zoom_sensitivity),
            fly_field_of_view_degrees: finite_clamped(self.fly_field_of_view_degrees, F32_TWENTY, F32_HUNDRED_TWENTY, d.fly_field_of_view_degrees),
            fly_mouse_look_sensitivity: finite_clamped(
                self.fly_mouse_look_sensitivity,
                F32_TENTHOUSANDTH,
                F32_FIFTIETH,
                d.fly_mouse_look_sensitivity,
            ),
            fly_near_clip_limit: finite_clamped(self.fly_near_clip_limit, F32_HUNDREDTH, F32_HUNDRED, d.fly_near_clip_limit),
            fly_max_clip_span: finite_clamped(self.fly_max_clip_span, F32_HUNDRED, F32_MILLION, d.fly_max_clip_span),
            ..self
        }
    }
}

impl Preferences {
    /// Every number is within its limits.
    pub open spec fn sound(self) -> bool {
        self.frames.sound() && self.camera.sound()
    }

    /// The preferences with every number within its limits.
    pub open spec fn clamped(self, d: CameraDefaults) -> Preferences {
        Preferences { frames: self.frames.clamped(), camera: self.camera.clamped(d), ..self }
    }

    fn clamp(self, d: CameraDefaults) -> (r: Preferences)
        ensures
            r == self.clamped(d),
    {
        Preferences { frames: self.frames.clamp(), camera: self.camera.clamp(d), ..self }
    }
}

/// Preferences that were put within their limits are within them, whatever
/// they were, and putting them there again changes nothing.
pub proof fn law_clamped_preferences(p: Preferences, d: CameraDefaults)
    requires
        d.sound(),
    ensures
        p.clamped(d).sound(),
        p.clamped(d).clamped(d) == p.clamped(d),
        p.sound() ==> p.clamped(d) == p,
{
}

/// A view preference that the menu turns on and off.
#[derive(Clone, Copy, PartialEq, Eq, Structural, Debug)]
pub enum ViewToggle {
    Console,
    PanelChrome,
    WorldAxisGizmo,
    XyGrid,
    ScaleBar,
}

impl ViewToggle {
    /// Whether it is on.
    pub open spec fn of(self, p: InterfacePreferences) -> bool {
        match self {
            ViewToggle::Console => p.show_console,
            ViewToggle::PanelChrome => p.panel_chrome,
            ViewToggle::WorldAxisGizmo => p.show_world_axis_gizmo,
            ViewToggle::XyGrid => p.show_xy_grid,
            ViewToggle::ScaleBar => p.show_scale_bar,
        }
    }

    /// The preferences with it turned over.
    pub open spec fn turned(self, p: InterfacePreferences) -> InterfacePreferences {
        match self {
            ViewToggle::Console => InterfacePreferences { show_console: !p.show_console, ..p },
            ViewToggle::PanelChrome => InterfacePreferences { panel_chrome: !p.panel_chrome, ..p },
            ViewToggle::WorldAxisGizmo => InterfacePreferences { show_world_axis_gizmo: !p.show_world_axis_gizmo, ..p },
            ViewToggle::XyGrid => InterfacePreferences { show_xy_grid: !p.show_xy_grid, ..p },
            ViewToggle::ScaleBar => InterfacePreferences { show_scale_bar: !p.show_scale_bar, ..p },
        }
    }

    fn turn(self, p: InterfacePreferences) -> (r: InterfacePreferences)
        ensures
            r == self.turned(p),
    {
        match self {
            ViewToggle::Console => InterfacePreferences { show_console: !p.show_console, ..p },
            ViewToggle::PanelChrome => InterfacePreferences { panel_chrome: !p.panel_chrome, ..p },
            ViewToggle::WorldAxisGizmo => InterfacePreferences { show_world_axis_gizmo: !p.show_world_axis_gizmo, ..p },
            ViewToggle::XyGrid => InterfacePreferences { show_xy_grid: !p.show_xy_grid, ..p },
            ViewToggle::ScaleBar => InterfacePreferences { show_scale_bar: !p.show_scale_bar, ..p },
        }
    }
}

/// A view preference turned over twice is as it was, and no other changes.
pub proof fn law_toggle_twice(t: ViewToggle, other: ViewToggle, p: InterfacePreferences)
    ensures
        t.turned(t.turned(p)) == p,
        t.of(t.turned(p)) == !t.of(p),
        t != other ==> other.of(t.turned(p)) == other.of(p),
{
}

/// A delay product as it is stored.
pub struct StoredDelayProduct {
    pub delay_ms: u32,
    pub name: String,
    pub color: u32,
}

/// What is stored: the preferences, the palette of delay products, the
/// coordinate systems and which of them is the mine's own. The file is written
/// whole, so that a part which were left out would be lost.
pub struct Config {
    pub preferences: Preferences,
    pub delay_products: Vec<StoredDelayProduct>,
    pub systems: Vec<SystemDefinition>,
    pub local_system: Option<String>,
}

/// These are the products as they are stored.
pub open spec fn products_stored(products: Seq<DelayProduct>, stored: Seq<StoredDelayProduct>) -> bool {
    &&& stored.len() == products.len()
    &&& forall|i: int|
        0 <= i < products.len() ==> (#[trigger] stored[i]).delay_ms == products[i].delay_ms && stored[i].name@ == products[i].name@ && stored[i].color
            == products[i].color
}

/// A configuration holds these parts.
pub open spec fn config_holds(
    c: Config,
    preferences: Preferences,
    products: Seq<DelayProduct>,
    systems: Seq<SystemModel>,
    local_system: Option<Seq<char>>,
) -> bool {
    &&& c.preferences == preferences
    &&& products_stored(products, c.delay_products@)
    &&& system_models(c.systems@) == systems
    &&& text_of(c.local_system) == local_system
}

/// A configuration holds what is in force.
pub open spec fn config_of(app: App, c: Config) -> bool {
    config_holds(c, app.view.applied, app.blast.products@, system_models(app.survey.definitions@), text_of(app.survey.local_system))
}

/// What is to be stored for the preferences, the palette and the systems.
pub fn config_from(preferences: Preferences, products: &Vec<DelayProduct>, systems: &Vec<SystemDefinition>, local_system: &Option<String>) -> (r: Config)
    ensures
        config_holds(r, preferences, products@, system_models(systems@), text_of(*local_system)),
{
    let mut stored: Vec<StoredDelayProduct> = Vec::new();
    let mut i: usize = 0;
    while i < products.len()
        invariant
            i <= products.len(),
            products_stored(products@.take(i as int), stored@),
        decreases products.len() - i,
    {
        let ghost before = stored@;
        let p = &products[i];
        stored.push(StoredDelayProduct { delay_ms: p.delay_ms, name: p.name.clone(), color: p.color });
        i += 1;
        proof {
            let now = products@.take(i as int);
            assert forall|k: int| 0 <= k < now.len() implies (#[trigger] stored@[k]).delay_ms == now[k].delay_ms && stored@[k].name@ == now[k].name@
                && stored@[k].color == now[k].color by {
                if k < i - 1 {
                    assert(stored@[k] == before[k]);
                    assert(products@.take(i - 1)[k] == now[k]);
                }
            }
        }
    }
    assert(products@.take(products@.len() as int) =~= products@);
    Config { preferences, delay_products: stored, systems: copy_systems(systems), local_system: copy_text(local_system) }
}

/// What the camera is to do.
#[derive(Clone, Copy, PartialEq, Eq, Structural, Debug)]
pub enum CameraMove {
    /// Look straight down on all that is visible.
    PlanFit,
    /// Frame all that is visible from where it looks now.
    KeepAngle,
}

/// The view: the preferences in force, and what is shown besides.
pub struct ViewState {
    pub applied: Preferences,
    pub draft: Option<Preferences>,
    pub measured_fps: Option<u64>,
    pub smoothed_frame_interval: Option<u64>,
    pub debug_chunk_stats: Option<u64>,
    pub topology_wireframes: bool,
    pub show_points: bool,
    pub vsync_switchable: bool,
    /// Texts have to be loaded in the language in force.
    pub language_stale: bool,
    /// The renderer has to be told of the camera preferences.
    pub camera_stale: bool,
    pub camera: Option<CameraMove>,
}

impl ViewState {
    /// The view with the present mode in force. `vsync_off` tells whether the
    /// renderer, if there is one, can present out of step: one that cannot
    /// presents in step whatever the preference says.
    pub open spec fn presented(self, vsync_off: Option<bool>) -> ViewState {
        match vsync_off {
            None => self,
            Some(can) => ViewState {
                vsync_switchable: can,
                applied: Preferences { vsync_enabled: self.applied.vsync_enabled || !can, ..self.applied },
                ..self
            },
        }
    }

    /// The view with preferences in force.
    pub open spec fn with_preferences(self, p: Preferences, vsync_off: Option<bool>) -> ViewState {
        let v = ViewState {
            applied: p,
            measured_fps: if p.debug.frame_counter_enabled {
                self.measured_fps
            } else {
                None
            },
            smoothed_frame_interval: if p.debug.frame_counter_enabled {
                self.smoothed_frame_interval
            } else {
                None
            },
            debug_chunk_stats: if p.debug.debug_chunk_coloring {
                self.debug_chunk_stats
            } else {
                None
            },
            language_stale: self.language_stale || p.language != self.applied.language,
            camera_stale: self.camera_stale || vsync_off is Some,
            ..self
        };
        ViewState { draft: Some(p), ..v.presented(vsync_off) }
    }

    /// Puts the present mode in force.
    pub fn apply_present_mode_preference(&mut self, vsync_off: Option<bool>)
        ensures
            *final(self) == old(self).presented(vsync_off),
    {
        match vsync_off {
            None => {},
            Some(can) => {
                self.vsync_switchable = can;
                if !can {
                    self.applied.vsync_enabled = true;
                }
            },
        }
    }

    fn put_in_force(&mut self, p: Preferences, vsync_off: Option<bool>)
        ensures
            *final(self) == old(self).with_preferences(p, vsync_off),
    {
        if !p.debug.frame_counter_enabled {
            self.measured_fps = None;
            self.smoothed_frame_interval = None;
        }
        if !p.debug.debug_chunk_coloring {
            self.debug_chunk_stats = None;
        }
        if p.language != self.applied.language {
            self.language_stale = true;
        }
        if vsync_off.is_some() {
            self.camera_stale = true;
        }
        self.applied = p;
        self.apply_present_mode_preference(vsync_off);
        self.draft = Some(p);
    }
}

/// What applying preferences does. `stored` tells whether the config could be
/// written: without it nothing changes.
pub open spec fn preferences_applied(
    pre: App,
    p: Preferences,
    d: CameraDefaults,
    stored: bool,
    vsync_off: Option<bool>,
    post: App,
    r: Result<(), AppError>,
) -> bool {
    if !stored {
        r == Err::<(), AppError>(AppError::ConfigNotWritten) && post == pre
    } else {
        r is Ok && post == (App { view: pre.view.with_preferences(p.clamped(d), vsync_off), frame: pre.frame.redraw(), ..pre })
    }
}

/// Storing preferences keeps the palette and the systems: once they are in
/// force, the file holds just what is in force. Where the renderer cannot
/// present out of step, that alone may differ.
pub proof fn law_preferences_are_stored_whole(
    pre: App,
    p: Preferences,
    d: CameraDefaults,
    vsync_off: Option<bool>,
    c: Config,
    post: App,
    r: Result<(), AppError>,
)
    requires
        config_holds(c, p.clamped(d), pre.blast.products@, system_models(pre.survey.definitions@), text_of(pre.survey.local_system)),
        preferences_applied(pre, p, d, true, vsync_off, post, r),
    ensures
        config_holds(c, p.clamped(d), post.blast.products@, system_models(post.survey.definitions@), text_of(post.survey.local_system)),
        post.view.applied == (Preferences { vsync_enabled: post.view.applied.vsync_enabled, ..p.clamped(d) }),
        vsync_off != Some(false) ==> config_of(post, c),
{
}

/// Storing systems keeps the preferences and the palette: once they are in
/// force, the file holds just what is in force.
pub proof fn law_systems_are_stored_whole(pre: App, plan: SurveyPlan, c: Config, post: App)
    requires
        config_holds(c, pre.view.applied, pre.blast.products@, system_models(plan.definitions@), text_of(plan.local_system)),
        post == (App { survey: post.survey, ..pre }),
        system_models(post.survey.definitions@) == system_models(plan.definitions@),
        text_of(post.survey.local_system) == text_of(plan.local_system),
    ensures
        config_of(post, c),
{
}

/// Whatever is stored first, the preferences, the palette or the systems, is
/// in the file that any of the others writes later.
pub proof fn law_files_keep_what_others_stored(app: App, p: Preferences, plan: SurveyPlan, preferences: Config, products: Config, systems: Config)
    requires
        config_holds(preferences, p, app.blast.products@, system_models(app.survey.definitions@), text_of(app.survey.local_system)),
        config_of(app, products),
        config_holds(systems, app.view.applied, app.blast.products@, system_models(plan.definitions@), text_of(plan.local_system)),
    ensures
        system_models(preferences.systems@) == system_models(products.systems@),
        text_of(preferences.local_system) == text_of(products.local_system),
        products_stored(app.blast.products@, preferences.delay_products@),
        products_stored(app.blast.products@, systems.delay_products@),
        systems.preferences == products.preferences,
{
}

impl App {
    /// Shows surfaces as wires, or not.
    pub fn set_topology_wireframes(&mut self, enabled: bool)
        ensures
            *final(self) == (App {
                view: ViewState { topology_wireframes: enabled, ..old(self).view },
                frame: old(self).frame.redraw(),
                ..*old(self)
            }),
    {
        self.view.topology_wireframes = enabled;
        self.frame.redraw_requested = true;
    }

    /// Shows the points of the design, or not.
    pub fn set_show_points(&mut self, enabled: bool)
        ensures
            *final(self) == (App { view: ViewState { show_points: enabled, ..old(self).view }, frame: old(self).frame.redraw(), ..*old(self) }),
    {
        self.view.show_points = enabled;
        self.frame.redraw_requested = true;
    }

    /// What has to be stored before the preferences can be applied.
    pub fn preferences_config(&self, preferences: Preferences, defaults: CameraDefaults) -> (r: Config)
        ensures
            config_holds(
                r,
                preferences.clamped(defaults),
                self.blast.products@,
                system_models(self.survey.definitions@),
                text_of(self.survey.local_system),
            ),
    {
        config_from(preferences.clamp(defaults), &self.blast.products, &self.survey.definitions, &self.survey.local_system)
    }

    /// What has to be stored once the palette has changed.
    pub fn products_config(&self) -> (r: Config)
        ensures
            config_of(*self, r),
    {
        config_from(self.view.applied, &self.blast.products, &self.survey.definitions, &self.survey.local_system)
    }

    /// What has to be stored before coordinate systems can change as planned.
    pub fn survey_config(&self, plan: &SurveyPlan) -> (r: Config)
        ensures
            config_holds(r, self.view.applied, self.blast.products@, system_models(plan.definitions@), text_of(plan.local_system)),
    {
        config_from(self.view.applied, &self.blast.products, &plan.definitions, &plan.local_system)
    }

    /// Applies preferences, once what `preferences_config` gives for them was
    /// stored.
    pub fn apply_preferences(&mut self, preferences: Preferences, defaults: CameraDefaults, stored: bool, vsync_off: Option<bool>) -> (r: Result<
        (),
        AppError,
    >)
        ensures
            preferences_applied(*old(self), preferences, defaults, stored, vsync_off, *final(self), r),
    {
        let p = preferences.clamp(defaults);
        if !stored {
            return Err(AppError::ConfigNotWritten);
        }
        self.view.put_in_force(p, vsync_off);
        self.frame.redraw_requested = true;
        Ok(())
    }

    /// The preferences with one view preference turned over.
    pub fn toggled_preferences(&self, option: ViewToggle) -> (r: Preferences)
        ensures
            r == (Preferences { interface: option.turned(self.view.applied.interface), ..self.view.applied }),
    {
        Preferences { interface: option.turn(self.view.applied.interface), ..self.view.applied }
    }

    /// Turns one view preference over.
    pub fn toggle_view_option(&mut self, option: ViewToggle, defaults: CameraDefaults, stored: bool, vsync_off: Option<bool>) -> (r: Result<
        (),
        AppError,
    >)
        ensures
            preferences_applied(
                *old(self),
                (Preferences { interface: option.turned(old(self).view.applied.interface), ..old(self).view.applied }),
                defaults,
                stored,
                vsync_off,
                *final(self),
                r,
            ),
    {
        let p = self.toggled_preferences(option);
        self.apply_preferences(p, defaults, stored, vsync_off)
    }

    /// Switches the language of the interface.
    pub fn set_language(&mut self, choice: LanguageChoice, defaults: CameraDefaults, stored: bool, vsync_off: Option<bool>) -> (r: Result<(), AppError>)
        ensures
            preferences_applied(
                *old(self),
                (Preferences { language: choice, ..old(self).view.applied }),
                defaults,
                stored,
                vsync_off,
                *final(self),
                r,
            ),
    {
        let p = Preferences { language: choice, ..self.view.applied };
        self.apply_preferences(p, defaults, stored, vsync_off)
    }

    /// Looks straight down on all that is visible, where there is a renderer.
    pub fn reset_view(&mut self, has_renderer: bool)
        ensures
            *final(self) == (if has_renderer {
                App { view: ViewState { camera: Some(CameraMove::PlanFit), ..old(self).view }, frame: old(self).frame.redraw(), ..*old(self) }
            } else {
                *old(self)
            }),
    {
        if has_renderer {
            self.view.camera = Some(CameraMove::PlanFit);
            self.frame.redraw_requested = true;
        }
    }

    /// Frames all that is visible from where the camera looks now, where there
    /// is a renderer.
    pub fn zoom_to_extents(&mut self, has_renderer: bool)
        ensures
            *final(self) == (if has_renderer {
                App { view: ViewState { camera: Some(CameraMove::KeepAngle), ..old(self).view }, frame: old(self).frame.redraw(), ..*old(self) }
            } else {
                *old(self)
            }),
    {
        if has_renderer {
            self.view.camera = Some(CameraMove::KeepAngle);
            self.frame.redraw_requested = true;
        }
    }
}

} // verus!

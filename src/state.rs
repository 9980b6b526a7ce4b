//! The display modes a user can pick and the extend-mode settings being edited.
use crate::config::{
    current_time, latest_match, settings_config, ConfigManager, ExtendConfigView,
    ExtendConfiguration, Timestamp,
};
use crate::display::{
    apply_extend_mode, apply_mirror_mode, apply_single_screen_mode, command_views, extend_plan,
    find_other, mirror_plan, monitor_names, monitor_views, names_of, other_from, plan_view,
    single_screen_plan, CommandView, DisplayCommand, DisplayError, ErrorView, MonitorDescriptor,
    MonitorView,
};
use crate::layout::ExtendLayout;
use crate::modes::{
    available_modes, get_monitor_available_modes, lemma_fallback_on_failed_query,
    lemma_modes_distinct,
};
use crate::text::{decimal_text, push_decimal, string_views};
use vstd::prelude::*;

verus! {

broadcast use vstd::string::group_string_axioms;

/// A display mode a user can pick.
#[derive(Clone, Copy, Debug, PartialEq, Eq, Structural)]
pub enum DisplayMode {
    Mirror,
    Extend,
    MainScreenOnly,
    SecondScreenOnly,
}

/// `<width>x<height>` of monitor `m`.
pub open spec fn size_text(m: MonitorView) -> Seq<char> {
    decimal_text(m.width as int) + "x"@ + decimal_text(m.height as int)
}

/// The extend preference used when none is stored for the connected monitors:
/// the first monitor left of the second, each at its native size, unrotated.
/// Its times are not read by [`extend_plan`].
pub open spec fn default_extend(ms: Seq<MonitorView>) -> ExtendConfigView {
    settings_config(
        ms[0].name,
        ms[1].name,
        size_text(ms[0]),
        "normal"@,
        size_text(ms[1]),
        "normal"@,
        ExtendLayout::LeftToRight,
        Timestamp { secs: 0, nanos: 0 },
    )
}

/// The command sequence for `mode`. Extend mode uses the stored preference for
/// the connected monitors, or else [`default_extend`].
pub open spec fn mode_plan(mode: DisplayMode, ms: Seq<MonitorView>, recs: Seq<ExtendConfigView>) -> Result<
    Seq<CommandView>,
    ErrorView,
> {
    match mode {
        DisplayMode::Mirror => mirror_plan(ms, recs),
        DisplayMode::Extend => match latest_match(recs, monitor_names(ms)) {
            Some(c) => extend_plan(ms, c),
            None => if ms.len() >= 2 {
                extend_plan(ms, default_extend(ms))
            } else {
                Ok(seq![])
            },
        },
        DisplayMode::MainScreenOnly => single_screen_plan(ms, true, recs),
        DisplayMode::SecondScreenOnly => single_screen_plan(ms, false, recs),
    }
}

fn size_string(m: &MonitorDescriptor) -> (r: String)
    ensures
        r@ == size_text(m@),
{
    let mut s = String::new();
    push_decimal(&mut s, m.width as i32);
    s.append("x");
    push_decimal(&mut s, m.height as i32);
    assert(s@ =~= size_text(m@));
    s
}

/// The command sequence that puts `monitors` into `mode`. With fewer than two
/// monitors every mode is a sequence of no commands.
pub fn apply_display_mode(
    mode: DisplayMode,
    monitors: &[MonitorDescriptor],
    config_manager: &ConfigManager,
) -> (r: Result<Vec<DisplayCommand>, DisplayError>)
    ensures
        plan_view(r) == mode_plan(mode, monitor_views(monitors@), config_manager@.records),
{
    let ghost ms = monitor_views(monitors@);
    match mode {
        DisplayMode::Mirror => apply_mirror_mode(monitors, config_manager),
        DisplayMode::Extend => {
            let names = names_of(monitors);
            match config_manager.get_extend_configuration_for_monitors(names.as_slice()) {
                Some(saved) => apply_extend_mode(monitors, saved),
                None => {
                    if monitors.len() >= 2 {
                        let first = &monitors[0];
                        let second = &monitors[1];
                        assert(ms[0] == first@ && ms[1] == second@);
                        let fallback = ConfigManager::create_config_from_settings(
                            first.name.clone(),
                            second.name.clone(),
                            size_string(first),
                            "normal".to_owned(),
                            size_string(second),
                            "normal".to_owned(),
                            ExtendLayout::LeftToRight,
                        );
                        let r = apply_extend_mode(monitors, &fallback);
                        assert(extend_plan(ms, fallback@) == extend_plan(ms, default_extend(ms)));
                        r
                    } else {
                        let v: Vec<DisplayCommand> = Vec::new();
                        assert(command_views(v@) =~= seq![]);
                        Ok(v)
                    }
                },
            }
        },
        DisplayMode::MainScreenOnly => apply_single_screen_mode(monitors, true, config_manager),
        DisplayMode::SecondScreenOnly => apply_single_screen_mode(monitors, false, config_manager),
    }
}

/// The extend-mode settings being edited: the chosen primary monitor, each
/// monitor's resolution and rotation, the layout, and the choices offered.
#[derive(Clone, Debug)]
pub struct MonitorSettingsData {
    pub primary_monitor: String,
    pub primary_resolution: String,
    pub primary_rotation: String,
    pub secondary_resolution: String,
    pub secondary_rotation: String,
    pub layout: ExtendLayout,
    pub primary_available_resolutions: Vec<String>,
    pub secondary_available_resolutions: Vec<String>,
    pub available_monitors: Vec<String>,
}

impl Default for MonitorSettingsData {
    /// No primary chosen yet; the primary at `auto`, the secondary at
    /// 1920x1080, both unrotated, left to right.
    fn default() -> (r: MonitorSettingsData)
        ensures
            r.primary_monitor@ == Seq::<char>::empty(),
            r.primary_resolution@ == "auto"@,
            r.primary_rotation@ == "normal"@,
            r.secondary_resolution@ == "1920x1080"@,
            r.secondary_rotation@ == "normal"@,
            r.layout == ExtendLayout::LeftToRight,
            string_views(r.primary_available_resolutions@) == seq!["auto"@],
            string_views(r.secondary_available_resolutions@) == seq!["1920x1080"@],
            r.available_monitors@.len() == 0,
    {
        let primary_available = vec!["auto".to_owned()];
        let secondary_available = vec!["1920x1080".to_owned()];
        assert(string_views(primary_available@) =~= seq!["auto"@]);
        assert(string_views(secondary_available@) =~= seq!["1920x1080"@]);
        MonitorSettingsData {
            primary_monitor: String::new(),
            primary_resolution: "auto".to_owned(),
            primary_rotation: "normal".to_owned(),
            secondary_resolution: "1920x1080".to_owned(),
            secondary_rotation: "normal".to_owned(),
            layout: ExtendLayout::LeftToRight,
            primary_available_resolutions: primary_available,
            secondary_available_resolutions: secondary_available,
            available_monitors: Vec::new(),
        }
    }
}

/// The name of the monitor that goes with `primary`: the first other one
/// connected, or `Unknown`.
pub open spec fn partner_name(ms: Seq<MonitorView>, primary: Seq<char>) -> Seq<char> {
    if other_from(ms, primary, 0) < ms.len() {
        ms[other_from(ms, primary, 0)].name
    } else {
        "Unknown"@
    }
}

impl MonitorSettingsData {
    /// The preference these settings describe at time `now`, its secondary
    /// monitor being the first connected monitor other than the primary.
    pub fn extend_configuration_at(&self, monitors: &[MonitorDescriptor], now: Timestamp) -> (r:
        ExtendConfiguration)
        ensures
            r@ == settings_config(
                self.primary_monitor@,
                partner_name(monitor_views(monitors@), self.primary_monitor@),
                self.primary_resolution@,
                self.primary_rotation@,
                self.secondary_resolution@,
                self.secondary_rotation@,
                self.layout,
                now,
            ),
    {
        let i = find_other(monitors, &self.primary_monitor);
        let secondary = if i < monitors.len() {
            assert(monitor_views(monitors@)[i as int] == monitors@[i as int]@);
            monitors[i].name.clone()
        } else {
            "Unknown".to_owned()
        };
        ConfigManager::config_from_settings_at(
            self.primary_monitor.clone(),
            secondary,
            self.primary_resolution.clone(),
            self.primary_rotation.clone(),
            self.secondary_resolution.clone(),
            self.secondary_rotation.clone(),
            self.layout,
            now,
        )
    }

    /// The preference these settings describe now, its secondary monitor being
    /// the first connected monitor other than the primary.
    pub fn extend_configuration(&self, monitors: &[MonitorDescriptor]) -> (r: ExtendConfiguration)
        ensures
            exists|now: Timestamp|
                r@ == settings_config(
                    self.primary_monitor@,
                    partner_name(monitor_views(monitors@), self.primary_monitor@),
                    self.primary_resolution@,
                    self.primary_rotation@,
                    self.secondary_resolution@,
                    self.secondary_rotation@,
                    self.layout,
                    now,
                ),
    {
        let now = current_time();
        self.extend_configuration_at(monitors, now)
    }
}

pub open spec fn query_view(query: Option<&str>) -> Option<Seq<char>> {
    match query {
        Some(t) => Some(t@),
        None => None,
    }
}

/// What the extend settings show when opened for monitors `ms`, given the
/// capability query's outcome `q`: the stored preference for the connected
/// monitors if there is one, else the first monitor as primary at `auto` and
/// the second at its first listed resolution, unrotated, left to right. The
/// primary is offered `auto` and its listed resolutions, the secondary its
/// listed resolutions.
pub open spec fn opened_settings(
    d: MonitorSettingsData,
    ms: Seq<MonitorView>,
    recs: Seq<ExtendConfigView>,
    q: Option<Seq<char>>,
) -> bool {
    &&& string_views(d.available_monitors@) == monitor_names(ms)
    &&& match latest_match(recs, monitor_names(ms)) {
        Some(c) => {
            &&& d.primary_monitor@ == c.primary_monitor
            &&& d.primary_resolution@ == c.primary_resolution
            &&& d.primary_rotation@ == c.primary_rotation
            &&& d.secondary_resolution@ == c.secondary_resolution
            &&& d.secondary_rotation@ == c.secondary_rotation
            &&& d.layout == c.layout
            &&& string_views(d.primary_available_resolutions@) == seq!["auto"@] + available_modes(
                q,
                c.primary_monitor,
            )
            &&& string_views(d.secondary_available_resolutions@) == available_modes(
                q,
                c.secondary_monitor,
            )
        },
        None => {
            &&& d.primary_monitor@ == ms[0].name
            &&& d.primary_resolution@ == "auto"@
            &&& d.primary_rotation@ == "normal"@
            &&& d.secondary_resolution@ == available_modes(q, ms[1].name)[0]
            &&& d.secondary_rotation@ == "normal"@
            &&& d.layout == ExtendLayout::LeftToRight
            &&& string_views(d.primary_available_resolutions@) == seq!["auto"@] + available_modes(
                q,
                ms[0].name,
            )
            &&& string_views(d.secondary_available_resolutions@) == available_modes(q, ms[1].name)
        },
    }
}

/// `auto` followed by the resolutions of monitor `name`.
fn primary_choices(query: Option<&str>, name: &str) -> (r: Vec<String>)
    ensures
        string_views(r@) == seq!["auto"@] + available_modes(query_view(query), name@),
{
    let mut r = vec!["auto".to_owned()];
    let mut modes = get_monitor_available_modes(query, name);
    let ghost first = r@;
    let ghost rest = modes@;
    r.append(&mut modes);
    assert(string_views(first) =~= seq!["auto"@]);
    assert(string_views(r@) =~= string_views(first) + string_views(rest));
    r
}

impl MonitorSettingsData {
    /// The settings shown when the extend settings are opened for `monitors`,
    /// given the outcome of a capability query for all monitors (`None` where
    /// it failed). With fewer than two monitors there is nothing to set.
    pub fn for_monitors(
        monitors: &[MonitorDescriptor],
        config_manager: &ConfigManager,
        query: Option<&str>,
    ) -> (r: Option<MonitorSettingsData>)
        ensures
            r is None <==> monitors@.len() < 2,
            r matches Some(d) ==> opened_settings(
                d,
                monitor_views(monitors@),
                config_manager@.records,
                query_view(query),
            ),
    {
        if monitors.len() < 2 {
            return None;
        }
        let ghost ms = monitor_views(monitors@);
        let names = names_of(monitors);
        let available_monitors = names_of(monitors);
        match config_manager.get_extend_configuration_for_monitors(names.as_slice()) {
            Some(saved) => Some(
                MonitorSettingsData {
                    primary_monitor: saved.primary_monitor.clone(),
                    primary_resolution: saved.primary_resolution.clone(),
                    primary_rotation: saved.primary_rotation.clone(),
                    secondary_resolution: saved.secondary_resolution.clone(),
                    secondary_rotation: saved.secondary_rotation.clone(),
                    layout: saved.layout,
                    primary_available_resolutions: primary_choices(
                        query,
                        saved.primary_monitor.as_str(),
                    ),
                    secondary_available_resolutions: get_monitor_available_modes(
                        query,
                        saved.secondary_monitor.as_str(),
                    ),
                    available_monitors,
                },
            ),
            None => {
                let first = &monitors[0];
                let second = &monitors[1];
                assert(ms[0] == first@ && ms[1] == second@);
                let secondary_available = get_monitor_available_modes(query, second.name.as_str());
                proof {
                    match query {
                        Some(t) => lemma_modes_distinct(t@, second.name@),
                        None => lemma_fallback_on_failed_query(second.name@),
                    }
                }
                let secondary_resolution = if secondary_available.len() > 0 {
                    assert(string_views(secondary_available@)[0] == secondary_available@[0]@);
                    secondary_available[0].clone()
                } else {
                    "1920x1080".to_owned()
                };
                Some(
                    MonitorSettingsData {
                        primary_monitor: first.name.clone(),
                        primary_resolution: "auto".to_owned(),
                        primary_rotation: "normal".to_owned(),
                        secondary_resolution,
                        secondary_rotation: "normal".to_owned(),
                        layout: ExtendLayout::LeftToRight,
                        primary_available_resolutions: primary_choices(query, first.name.as_str()),
                        secondary_available_resolutions: secondary_available,
                        available_monitors,
                    },
                )
            },
        }
    }
}

impl MonitorSettingsData {
    /// Makes `monitor_name` the primary monitor: it is offered `auto` and its
    /// resolutions. If another monitor is connected, the first such one is
    /// offered its resolutions, the primary is set to `auto` and the secondary
    /// to its first resolution.
    pub fn select_primary_monitor(
        &mut self,
        monitor_name: String,
        monitors: &[MonitorDescriptor],
        query: Option<&str>,
    )
        ensures
            final(self).primary_monitor@ == monitor_name@,
            string_views(final(self).primary_available_resolutions@) == seq!["auto"@]
                + available_modes(query_view(query), monitor_name@),
            final(self).primary_rotation == old(self).primary_rotation,
            final(self).secondary_rotation == old(self).secondary_rotation,
            final(self).layout == old(self).layout,
            final(self).available_monitors == old(self).available_monitors,
            ({
                let ms = monitor_views(monitors@);
                let o = other_from(ms, monitor_name@, 0);
                if o < ms.len() {
                    &&& string_views(final(self).secondary_available_resolutions@)
                        == available_modes(query_view(query), ms[o].name)
                    &&& final(self).primary_resolution@ == "auto"@
                    &&& final(self).secondary_resolution@ == available_modes(
                        query_view(query),
                        ms[o].name,
                    )[0]
                } else {
                    &&& final(self).secondary_available_resolutions
                        == old(self).secondary_available_resolutions
                    &&& final(self).primary_resolution == old(self).primary_resolution
                    &&& final(self).secondary_resolution == old(self).secondary_resolution
                }
            }),
    {
        self.primary_available_resolutions = primary_choices(query, monitor_name.as_str());
        let o = find_other(monitors, &monitor_name);
        if o < monitors.len() {
            let other = &monitors[o];
            assert(monitor_views(monitors@)[o as int] == other@);
            let modes = get_monitor_available_modes(query, other.name.as_str());
            proof {
                match query {
                    Some(t) => lemma_modes_distinct(t@, other.name@),
                    None => lemma_fallback_on_failed_query(other.name@),
                }
            }
            let secondary_resolution = if modes.len() > 0 {
                assert(string_views(modes@)[0] == modes@[0]@);
                modes[0].clone()
            } else {
                "1920x1080".to_owned()
            };
            self.secondary_available_resolutions = modes;
            self.primary_resolution = "auto".to_owned();
            self.secondary_resolution = secondary_resolution;
        }
        self.primary_monitor = monitor_name;
    }
}

} // verus!

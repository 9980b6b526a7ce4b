//! The command sequences that put the monitors into mirror, extend or
//! single-screen mode.
//!
//! Each function here decides the whole sequence up front and returns it; the
//! caller issues the commands in order and stops at the first that fails.
use crate::config::{preferred_primary, ConfigManager, ExtendConfigView, ExtendConfiguration};
use crate::layout::{
    calculate_positions, get_transform_string, height_of_resolution, layout_positions,
    resolution_height, resolution_width, transform_suffix, width_of_resolution,
};
use crate::text::{decimal_text, push_decimal, str_eq, string_views};
use vstd::prelude::*;

verus! {

broadcast use vstd::string::group_string_axioms;

/// A connected monitor as the compositor reports it. `scale` is the scale
/// factor as the compositor writes it in a monitor rule.
#[derive(Clone, Debug)]
pub struct MonitorDescriptor {
    pub name: String,
    pub width: u16,
    pub height: u16,
    pub scale: String,
    pub focused: bool,
}

pub struct MonitorView {
    pub name: Seq<char>,
    pub width: u16,
    pub height: u16,
    pub scale: Seq<char>,
    pub focused: bool,
}

impl View for MonitorDescriptor {
    type V = MonitorView;

    open spec fn view(&self) -> MonitorView {
        MonitorView {
            name: self.name@,
            width: self.width,
            height: self.height,
            scale: self.scale@,
            focused: self.focused,
        }
    }
}

pub open spec fn monitor_views(ms: Seq<MonitorDescriptor>) -> Seq<MonitorView> {
    ms.map_values(|m: MonitorDescriptor| m@)
}

pub open spec fn monitor_names(ms: Seq<MonitorView>) -> Seq<Seq<char>> {
    ms.map_values(|m: MonitorView| m.name)
}

/// One step of a display change.
#[derive(Clone, Debug)]
pub enum DisplayCommand {
    /// Run this command line through the compositor.
    Exec(String),
    /// Wait this many milliseconds for the compositor to settle.
    Settle(u64),
}

pub enum CommandView {
    Exec(Seq<char>),
    Settle(u64),
}

impl View for DisplayCommand {
    type V = CommandView;

    open spec fn view(&self) -> CommandView {
        match self {
            DisplayCommand::Exec(s) => CommandView::Exec(s@),
            DisplayCommand::Settle(ms) => CommandView::Settle(*ms),
        }
    }
}

pub open spec fn command_views(v: Seq<DisplayCommand>) -> Seq<CommandView> {
    v.map_values(|c: DisplayCommand| c@)
}

/// Which monitor of a pair could not be found.
#[derive(Clone, Copy, Debug, PartialEq, Eq, Structural)]
pub enum MonitorRole {
    Primary,
    Secondary,
}

/// Why a display change could not be made.
#[derive(Clone, Debug)]
pub enum DisplayError {
    /// A monitor that the change names is not connected.
    MonitorNotFound(MonitorRole),
    /// The compositor refused a command; the text is its reason.
    CommandFailed(String),
}

pub enum ErrorView {
    MonitorNotFound(MonitorRole),
    CommandFailed(Seq<char>),
}

impl View for DisplayError {
    type V = ErrorView;

    open spec fn view(&self) -> ErrorView {
        match self {
            DisplayError::MonitorNotFound(r) => ErrorView::MonitorNotFound(*r),
            DisplayError::CommandFailed(s) => ErrorView::CommandFailed(s@),
        }
    }
}

pub open spec fn plan_view(r: Result<Vec<DisplayCommand>, DisplayError>) -> Result<
    Seq<CommandView>,
    ErrorView,
> {
    match r {
        Ok(v) => Ok(command_views(v@)),
        Err(e) => Err(e@),
    }
}

/// How long the compositor is given, after both monitors of a pair are
/// disabled, to drop any earlier mirror or extend link before they are set up again.
pub const SETTLE_MILLIS: u64 = 1000;

/// The first index at or after `i` of a monitor named `name`, or `ms.len()`.
pub open spec fn named_from(ms: Seq<MonitorView>, name: Seq<char>, i: int) -> int
    decreases ms.len() - i,
{
    if i < 0 || i >= ms.len() || ms[i].name == name {
        i
    } else {
        named_from(ms, name, i + 1)
    }
}

/// The first index at or after `i` of a monitor not named `name`, or `ms.len()`.
pub open spec fn other_from(ms: Seq<MonitorView>, name: Seq<char>, i: int) -> int
    decreases ms.len() - i,
{
    if i < 0 || i >= ms.len() || ms[i].name != name {
        i
    } else {
        other_from(ms, name, i + 1)
    }
}

/// The first index at or after `i` of a focused monitor, or `ms.len()`.
pub open spec fn focused_from(ms: Seq<MonitorView>, i: int) -> int
    decreases ms.len() - i,
{
    if i < 0 || i >= ms.len() || ms[i].focused {
        i
    } else {
        focused_from(ms, i + 1)
    }
}

/// The primary monitor's index: the first monitor named `preferred` if there
/// is one, else the first focused monitor, else the first monitor.
pub open spec fn primary_index(ms: Seq<MonitorView>, preferred: Option<Seq<char>>) -> int {
    match preferred {
        Some(p) if named_from(ms, p, 0) < ms.len() => named_from(ms, p, 0),
        _ => if focused_from(ms, 0) < ms.len() {
            focused_from(ms, 0)
        } else {
            0
        },
    }
}

/// The primary monitor's index given the store's preference for `ms`.
pub open spec fn store_primary_index(ms: Seq<MonitorView>, recs: Seq<ExtendConfigView>) -> int {
    primary_index(ms, preferred_primary(recs, monitor_names(ms)))
}

/// `hyprctl keyword monitor "<rule>"`
pub open spec fn monitor_command(rule: Seq<char>) -> Seq<char> {
    "hyprctl keyword monitor \""@ + rule + "\""@
}

/// `<name>,disable`
pub open spec fn disable_rule(name: Seq<char>) -> Seq<char> {
    name + ",disable"@
}

/// `<name>,<width>x<height>,0x0,<scale>`: monitor `m` at its native mode at the origin.
pub open spec fn native_rule(m: MonitorView) -> Seq<char> {
    m.name + ","@ + decimal_text(m.width as int) + "x"@ + decimal_text(m.height as int)
        + ",0x0,"@ + m.scale
}

/// `<name>,<width>x<height>,0x0,<scale>,mirror,<source>`: monitor `m` showing
/// what `source` shows, in `source`'s mode.
pub open spec fn mirror_rule(m: MonitorView, source: MonitorView) -> Seq<char> {
    m.name + ","@ + decimal_text(source.width as int) + "x"@ + decimal_text(source.height as int)
        + ",0x0,"@ + source.scale + ",mirror,"@ + source.name
}

/// `<name>,<resolution>,<position>,1<transform>`
pub open spec fn placed_rule(
    name: Seq<char>,
    resolution: Seq<char>,
    position: Seq<char>,
    rotation: Seq<char>,
) -> Seq<char> {
    name + ","@ + resolution + ","@ + position + ",1"@ + transform_suffix(rotation)
}

pub open spec fn exec_step(rule: Seq<char>) -> CommandView {
    CommandView::Exec(monitor_command(rule))
}

/// The mirror-mode sequence: the primary at its native mode, then the other
/// monitor mirroring it.
pub open spec fn mirror_plan(ms: Seq<MonitorView>, recs: Seq<ExtendConfigView>) -> Result<
    Seq<CommandView>,
    ErrorView,
> {
    if ms.len() < 2 {
        Ok(seq![])
    } else {
        let p = store_primary_index(ms, recs);
        let s = other_from(ms, ms[p].name, 0);
        if s >= ms.len() {
            Err(ErrorView::MonitorNotFound(MonitorRole::Secondary))
        } else {
            Ok(seq![exec_step(native_rule(ms[p])), exec_step(mirror_rule(ms[s], ms[p]))])
        }
    }
}

/// The single-screen sequence: the chosen monitor (the primary if
/// `primary_only`, else the other one) at its native mode, then the other disabled.
pub open spec fn single_screen_plan(
    ms: Seq<MonitorView>,
    primary_only: bool,
    recs: Seq<ExtendConfigView>,
) -> Result<Seq<CommandView>, ErrorView> {
    if ms.len() < 2 {
        Ok(seq![])
    } else {
        let p = store_primary_index(ms, recs);
        let s = other_from(ms, ms[p].name, 0);
        if s >= ms.len() {
            Err(ErrorView::MonitorNotFound(MonitorRole::Secondary))
        } else {
            let (on, off) = if primary_only {
                (p, s)
            } else {
                (s, p)
            };
            Ok(seq![exec_step(native_rule(ms[on])), exec_step(disable_rule(ms[off].name))])
        }
    }
}

/// The primary's width and height for placing the pair: its native size for
/// resolution `auto`, else the size the resolution names.
pub open spec fn primary_size(m: MonitorView, resolution: Seq<char>) -> (i32, i32) {
    if resolution == "auto"@ {
        (m.width as i32, m.height as i32)
    } else {
        (width_of_resolution(resolution), height_of_resolution(resolution))
    }
}

/// The extend-mode sequence for preference `c`: both monitors disabled, a
/// pause, then each placed at its resolution, position, scale 1 and rotation.
pub open spec fn extend_plan(ms: Seq<MonitorView>, c: ExtendConfigView) -> Result<
    Seq<CommandView>,
    ErrorView,
> {
    if ms.len() < 2 {
        Ok(seq![])
    } else if named_from(ms, c.primary_monitor, 0) >= ms.len() {
        Err(ErrorView::MonitorNotFound(MonitorRole::Primary))
    } else if named_from(ms, c.secondary_monitor, 0) >= ms.len() {
        Err(ErrorView::MonitorNotFound(MonitorRole::Secondary))
    } else {
        let size = primary_size(ms[named_from(ms, c.primary_monitor, 0)], c.primary_resolution);
        let pos = layout_positions(c.layout, size.0, size.1, c.secondary_resolution);
        Ok(
            seq![
                exec_step(disable_rule(c.primary_monitor)),
                exec_step(disable_rule(c.secondary_monitor)),
                CommandView::Settle(SETTLE_MILLIS),
                exec_step(placed_rule(c.primary_monitor, c.primary_resolution, pos.0, c.primary_rotation)),
                exec_step(placed_rule(c.secondary_monitor, c.secondary_resolution, pos.1, c.secondary_rotation)),
            ],
        )
    }
}

proof fn lemma_named_from(ms: Seq<MonitorView>, name: Seq<char>, i: int)
    requires
        0 <= i <= ms.len(),
    ensures
        i <= named_from(ms, name, i) <= ms.len(),
        named_from(ms, name, i) < ms.len() ==> ms[named_from(ms, name, i)].name == name,
    decreases ms.len() - i,
{
    if i < ms.len() && ms[i].name != name {
        lemma_named_from(ms, name, i + 1);
    }
}

/// The index of the first monitor named `name`, or `monitors.len()`.
fn find_named(monitors: &[MonitorDescriptor], name: &str) -> (r: usize)
    ensures
        r == named_from(monitor_views(monitors@), name@, 0),
        r <= monitors@.len(),
{
    let ghost ms = monitor_views(monitors@);
    let mut i: usize = 0;
    while i < monitors.len()
        invariant
            i <= monitors@.len(),
            ms == monitor_views(monitors@),
            named_from(ms, name@, 0) == named_from(ms, name@, i as int),
        decreases monitors@.len() - i,
    {
        assert(ms[i as int] == monitors@[i as int]@);
        if str_eq(monitors[i].name.as_str(), name) {
            return i;
        }
        i = i + 1;
    }
    i
}

/// The index of the first monitor not named `name`, or `monitors.len()`.
pub fn find_other(monitors: &[MonitorDescriptor], name: &String) -> (r: usize)
    ensures
        r == other_from(monitor_views(monitors@), name@, 0),
        r <= monitors@.len(),
{
    let ghost ms = monitor_views(monitors@);
    let mut i: usize = 0;
    while i < monitors.len()
        invariant
            i <= monitors@.len(),
            ms == monitor_views(monitors@),
            other_from(ms, name@, 0) == other_from(ms, name@, i as int),
        decreases monitors@.len() - i,
    {
        assert(ms[i as int] == monitors@[i as int]@);
        if monitors[i].name != *name {
            return i;
        }
        i = i + 1;
    }
    i
}

/// The names of `monitors`, in order.
pub fn names_of(monitors: &[MonitorDescriptor]) -> (r: Vec<String>)
    ensures
        string_views(r@) == monitor_names(monitor_views(monitors@)),
{
    let mut r: Vec<String> = Vec::new();
    let mut i: usize = 0;
    while i < monitors.len()
        invariant
            i <= monitors@.len(),
            string_views(r@) == monitor_names(monitor_views(monitors@)).take(i as int),
        decreases monitors@.len() - i,
    {
        let ghost prev = r@;
        r.push(monitors[i].name.clone());
        assert(string_views(r@) =~= string_views(prev).push(monitors@[i as int].name@));
        assert(monitor_names(monitor_views(monitors@)).take(i + 1) =~= monitor_names(
            monitor_views(monitors@),
        ).take(i as int).push(monitors@[i as int].name@));
        i = i + 1;
    }
    assert(monitor_names(monitor_views(monitors@)).take(i as int) =~= monitor_names(
        monitor_views(monitors@),
    ));
    r
}

/// The index of the primary monitor: the one the stored preferences name for
/// these monitors, else the focused one, else the first.
fn primary_position(monitors: &[MonitorDescriptor], config_manager: &ConfigManager) -> (r: usize)
    requires
        monitors@.len() > 0,
    ensures
        r == store_primary_index(monitor_views(monitors@), config_manager@.records),
        r < monitors@.len(),
{
    let ghost ms = monitor_views(monitors@);
    let names = names_of(monitors);
    let preferred = config_manager.get_preferred_primary_monitor(names.as_slice());
    let ghost pref = preferred_primary(config_manager@.records, monitor_names(ms));
    if let Some(p) = preferred {
        let i = find_named(monitors, p.as_str());
        if i < monitors.len() {
            return i;
        }
    }
    let mut i: usize = 0;
    while i < monitors.len()
        invariant
            i <= monitors@.len(),
            ms == monitor_views(monitors@),
            monitors@.len() > 0,
            pref == preferred_primary(config_manager@.records, monitor_names(ms)),
            pref is None || named_from(ms, pref->0, 0) >= ms.len(),
            focused_from(ms, 0) == focused_from(ms, i as int),
        decreases monitors@.len() - i,
    {
        assert(ms[i as int] == monitors@[i as int]@);
        if monitors[i].focused {
            return i;
        }
        i = i + 1;
    }
    0
}

/// The primary monitor: the one the stored preferences name for these
/// monitors, else the focused one, else the first.
pub fn determine_primary_monitor<'a>(
    monitors: &'a [MonitorDescriptor],
    config_manager: &ConfigManager,
) -> (r: &'a MonitorDescriptor)
    requires
        monitors@.len() > 0,
    ensures
        r@ == monitor_views(monitors@)[store_primary_index(
            monitor_views(monitors@),
            config_manager@.records,
        )],
{
    let i = primary_position(monitors, config_manager);
    &monitors[i]
}

/// The first monitor that is not `primary`.
fn determine_secondary_monitor<'a>(
    monitors: &'a [MonitorDescriptor],
    primary: &MonitorDescriptor,
) -> (r: Option<&'a MonitorDescriptor>)
    ensures
        match r {
            Some(m) => other_from(monitor_views(monitors@), primary.name@, 0) < monitors@.len()
                && m@ == monitor_views(monitors@)[other_from(
                monitor_views(monitors@),
                primary.name@,
                0,
            )],
            None => other_from(monitor_views(monitors@), primary.name@, 0) >= monitors@.len(),
        },
{
    let i = find_other(monitors, &primary.name);
    if i < monitors.len() {
        Some(&monitors[i])
    } else {
        None
    }
}

/// The command that applies monitor rule `rule`.
fn monitor_command_for(rule: &String) -> (r: DisplayCommand)
    ensures
        r@ == exec_step(rule@),
{
    let mut s = "hyprctl keyword monitor \"".to_owned();
    s.append(rule.as_str());
    s.append("\"");
    DisplayCommand::Exec(s)
}

fn disable_rule_for(name: &String) -> (r: String)
    ensures
        r@ == disable_rule(name@),
{
    let mut s = name.clone();
    s.append(",disable");
    s
}

/// `<width>x<height>,0x0,<scale>` of monitor `m`, after `prefix`.
fn push_mode_at_origin(s: &mut String, m: &MonitorDescriptor)
    ensures
        final(s)@ == old(s)@ + decimal_text(m.width as int) + "x"@ + decimal_text(m.height as int)
            + ",0x0,"@ + m.scale@,
{
    push_decimal(s, m.width as i32);
    s.append("x");
    push_decimal(s, m.height as i32);
    s.append(",0x0,");
    s.append(m.scale.as_str());
}

fn native_rule_for(m: &MonitorDescriptor) -> (r: String)
    ensures
        r@ == native_rule(m@),
{
    let mut s = m.name.clone();
    s.append(",");
    push_mode_at_origin(&mut s, m);
    assert(s@ =~= native_rule(m@));
    s
}

fn mirror_rule_for(m: &MonitorDescriptor, source: &MonitorDescriptor) -> (r: String)
    ensures
        r@ == mirror_rule(m@, source@),
{
    let mut s = m.name.clone();
    s.append(",");
    push_mode_at_origin(&mut s, source);
    s.append(",mirror,");
    s.append(source.name.as_str());
    assert(s@ =~= mirror_rule(m@, source@));
    s
}

fn placed_rule_for(name: &String, resolution: &String, position: &String, rotation: &String) -> (r:
    String)
    ensures
        r@ == placed_rule(name@, resolution@, position@, rotation@),
{
    let mut s = name.clone();
    s.append(",");
    s.append(resolution.as_str());
    s.append(",");
    s.append(position.as_str());
    s.append(",1");
    s.append(get_transform_string(rotation.as_str()));
    assert(s@ =~= placed_rule(name@, resolution@, position@, rotation@));
    s
}

/// Mirror mode: the primary monitor at its native mode at the origin, then the
/// other monitor showing the same picture in the primary's mode. With fewer
/// than two monitors there is nothing to do.
pub fn apply_mirror_mode(monitors: &[MonitorDescriptor], config_manager: &ConfigManager) -> (r:
    Result<Vec<DisplayCommand>, DisplayError>)
    ensures
        plan_view(r) == mirror_plan(monitor_views(monitors@), config_manager@.records),
{
    let ghost ms = monitor_views(monitors@);
    if monitors.len() < 2 {
        let v: Vec<DisplayCommand> = Vec::new();
        assert(command_views(v@) =~= seq![]);
        return Ok(v);
    }
    let primary = determine_primary_monitor(monitors, config_manager);
    let secondary = match determine_secondary_monitor(monitors, primary) {
        Some(m) => m,
        None => {
            return Err(DisplayError::MonitorNotFound(MonitorRole::Secondary));
        },
    };
    let v = vec![
        monitor_command_for(&native_rule_for(primary)),
        monitor_command_for(&mirror_rule_for(secondary, primary)),
    ];
    assert(command_views(v@) =~= mirror_plan(ms, config_manager@.records)->Ok_0);
    Ok(v)
}

/// Single-screen mode: the chosen monitor (the primary if `primary_only`, else
/// the other one) at its native mode at the origin, then the other one
/// disabled. With fewer than two monitors there is nothing to do.
pub fn apply_single_screen_mode(
    monitors: &[MonitorDescriptor],
    primary_only: bool,
    config_manager: &ConfigManager,
) -> (r: Result<Vec<DisplayCommand>, DisplayError>)
    ensures
        plan_view(r) == single_screen_plan(
            monitor_views(monitors@),
            primary_only,
            config_manager@.records,
        ),
{
    let ghost ms = monitor_views(monitors@);
    if monitors.len() < 2 {
        let v: Vec<DisplayCommand> = Vec::new();
        assert(command_views(v@) =~= seq![]);
        return Ok(v);
    }
    let primary = determine_primary_monitor(monitors, config_manager);
    let secondary = match determine_secondary_monitor(monitors, primary) {
        Some(m) => m,
        None => {
            return Err(DisplayError::MonitorNotFound(MonitorRole::Secondary));
        },
    };
    let (on, off) = if primary_only {
        (primary, secondary)
    } else {
        (secondary, primary)
    };
    let v = vec![
        monitor_command_for(&native_rule_for(on)),
        monitor_command_for(&disable_rule_for(&off.name)),
    ];
    assert(command_views(v@) =~= single_screen_plan(
        ms,
        primary_only,
        config_manager@.records,
    )->Ok_0);
    Ok(v)
}

/// Extend mode for preference `config`: both monitors disabled, a pause for the
/// compositor to settle, then the primary and the secondary each placed at its
/// resolution, its position for the layout, scale 1 and its rotation.
///
/// Fails, before any command, when either monitor is not connected. With fewer
/// than two monitors there is nothing to do.
pub fn apply_extend_mode(monitors: &[MonitorDescriptor], config: &ExtendConfiguration) -> (r:
    Result<Vec<DisplayCommand>, DisplayError>)
    ensures
        plan_view(r) == extend_plan(monitor_views(monitors@), config@),
{
    let ghost ms = monitor_views(monitors@);
    if monitors.len() < 2 {
        let v: Vec<DisplayCommand> = Vec::new();
        assert(command_views(v@) =~= seq![]);
        return Ok(v);
    }
    let p = find_named(monitors, config.primary_monitor.as_str());
    if p >= monitors.len() {
        return Err(DisplayError::MonitorNotFound(MonitorRole::Primary));
    }
    let s = find_named(monitors, config.secondary_monitor.as_str());
    if s >= monitors.len() {
        return Err(DisplayError::MonitorNotFound(MonitorRole::Secondary));
    }
    let primary = &monitors[p];
    assert(ms[p as int] == primary@);
    let auto = str_eq(config.primary_resolution.as_str(), "auto");
    let (width, height) = if auto {
        (primary.width as i32, primary.height as i32)
    } else {
        (
            resolution_width(config.primary_resolution.as_str()),
            resolution_height(config.primary_resolution.as_str()),
        )
    };
    let (primary_pos, secondary_pos) = calculate_positions(
        &config.layout,
        width,
        height,
        config.secondary_resolution.as_str(),
    );
    let primary_rule = placed_rule_for(
        &config.primary_monitor,
        &config.primary_resolution,
        &primary_pos,
        &config.primary_rotation,
    );
    let secondary_rule = placed_rule_for(
        &config.secondary_monitor,
        &config.secondary_resolution,
        &secondary_pos,
        &config.secondary_rotation,
    );
    let v = vec![
        monitor_command_for(&disable_rule_for(&config.primary_monitor)),
        monitor_command_for(&disable_rule_for(&config.secondary_monitor)),
        DisplayCommand::Settle(SETTLE_MILLIS),
        monitor_command_for(&primary_rule),
        monitor_command_for(&secondary_rule),
    ];
    assert(command_views(v@) =~= extend_plan(ms, config@)->Ok_0);
    Ok(v)
}

/// Reloads the compositor's own monitor configuration.
pub fn reset_to_defaults() -> (r: Vec<DisplayCommand>)
    ensures
        command_views(r@) == seq![CommandView::Exec("hyprctl reload"@)],
{
    let v = vec![DisplayCommand::Exec("hyprctl reload".to_owned())];
    assert(command_views(v@) =~= seq![CommandView::Exec("hyprctl reload"@)]);
    v
}

/// With fewer than two monitors there is nothing to combine: every mode is a
/// success that issues no command.
pub proof fn lemma_lone_monitor_no_commands(
    ms: Seq<MonitorView>,
    recs: Seq<ExtendConfigView>,
    c: ExtendConfigView,
    primary_only: bool,
)
    requires
        ms.len() < 2,
    ensures
        mirror_plan(ms, recs) == Ok::<Seq<CommandView>, ErrorView>(seq![]),
        extend_plan(ms, c) == Ok::<Seq<CommandView>, ErrorView>(seq![]),
        single_screen_plan(ms, primary_only, recs) == Ok::<Seq<CommandView>, ErrorView>(seq![]),
{
}

/// Extend mode for a preference that names a monitor which is not connected
/// fails with `MonitorNotFound`, before any command.
pub proof fn lemma_extend_missing_monitor(ms: Seq<MonitorView>, c: ExtendConfigView)
    requires
        ms.len() >= 2,
        !monitor_names(ms).contains(c.primary_monitor) || !monitor_names(ms).contains(
            c.secondary_monitor,
        ),
    ensures
        extend_plan(ms, c) matches Err(ErrorView::MonitorNotFound(_)),
{
    lemma_named_from(ms, c.primary_monitor, 0);
    lemma_named_from(ms, c.secondary_monitor, 0);
    let p = named_from(ms, c.primary_monitor, 0);
    let s = named_from(ms, c.secondary_monitor, 0);
    if p < ms.len() {
        assert(monitor_names(ms)[p] == c.primary_monitor);
    }
    if s < ms.len() {
        assert(monitor_names(ms)[s] == c.secondary_monitor);
    }
}

/// What to do next while carrying out a plan.
#[derive(Debug)]
pub enum PlanAction {
    /// Carry out the command at this index of the plan.
    Perform(usize),
    /// Every command was carried out.
    Done,
    /// The last command failed; stop here with this error.
    Fail(DisplayError),
}

/// The next step in carrying out `plan`, whose commands before `next` have all
/// been carried out; `last_outcome` is the outcome of the last of them (`None`
/// before the first). The first failure ends the run with `CommandFailed`;
/// otherwise the commands are carried out in order until none is left.
pub fn next_action(
    plan: &[DisplayCommand],
    next: usize,
    last_outcome: Option<Result<(), String>>,
) -> (r: PlanAction)
    requires
        next <= plan@.len(),
    ensures
        match last_outcome {
            Some(Err(reason)) => r matches PlanAction::Fail(DisplayError::CommandFailed(e))
                && e@ == reason@,
            _ => if next < plan@.len() {
                r == PlanAction::Perform(next)
            } else {
                r is Done
            },
        },
{
    match last_outcome {
        Some(Err(reason)) => PlanAction::Fail(DisplayError::CommandFailed(reason)),
        _ => if next < plan.len() {
            PlanAction::Perform(next)
        } else {
            PlanAction::Done
        },
    }
}

} // verus!

//! Configuration snapshot: window origin, geometry, per-urgency styling,
//! app-color lookup and notification styling rules. The snapshot is resolved
//! by the loader outside the crate; the core only reads it.

use vstd::prelude::*;
use crate::error::Error;
use crate::notification::{Notification, NotificationFilter, Urgency, spec_filter_matches};
use crate::pattern::{chars_vec, glob_match, lower_of, lowercase, spec_glob};

verus! {

/// Window origin/anchor point for positioning.
#[derive(Clone, Copy, Debug, PartialEq, Eq, Structural)]
pub enum Origin {
    /// Anchor to top-left corner (default).
    TopLeft,
    /// Anchor to top-right corner.
    TopRight,
    /// Anchor to bottom-left corner.
    BottomLeft,
    /// Anchor to bottom-right corner.
    BottomRight,
}

impl Default for Origin {
    fn default() -> (r: Self)
        ensures
            r == Origin::TopLeft,
    {
        Origin::TopLeft
    }
}

/// Which origin a lowercased name denotes, if any.
pub open spec fn spec_parse_origin(t: Seq<char>) -> Result<Origin, Error> {
    if t == "top-left"@ || t == "topleft"@ {
        Ok(Origin::TopLeft)
    } else if t == "top-right"@ || t == "topright"@ {
        Ok(Origin::TopRight)
    } else if t == "bottom-left"@ || t == "bottomleft"@ {
        Ok(Origin::BottomLeft)
    } else if t == "bottom-right"@ || t == "bottomright"@ {
        Ok(Origin::BottomRight)
    } else {
        Err(Error::InvalidOrigin)
    }
}

impl Origin {
    /// Parses an origin name, case-insensitively, with or without the
    /// hyphen.
    pub fn parse_name(s: &str) -> (r: Result<Origin, Error>)
        ensures
            r == spec_parse_origin(lower_of(s@)),
    {
        let l = lowercase(s);
        if l == "top-left".to_owned() || l == "topleft".to_owned() {
            Ok(Origin::TopLeft)
        } else if l == "top-right".to_owned() || l == "topright".to_owned() {
            Ok(Origin::TopRight)
        } else if l == "bottom-left".to_owned() || l == "bottomleft".to_owned() {
            Ok(Origin::BottomLeft)
        } else if l == "bottom-right".to_owned() || l == "bottomright".to_owned() {
            Ok(Origin::BottomRight)
        } else {
            Err(Error::InvalidOrigin)
        }
    }

    /// The canonical hyphenated name of this origin.
    pub fn name(&self) -> (r: &'static str)
        ensures
            *self == Origin::TopLeft ==> r@ == "top-left"@,
            *self == Origin::TopRight ==> r@ == "top-right"@,
            *self == Origin::BottomLeft ==> r@ == "bottom-left"@,
            *self == Origin::BottomRight ==> r@ == "bottom-right"@,
    {
        match self {
            Origin::TopLeft => "top-left",
            Origin::TopRight => "top-right",
            Origin::BottomLeft => "bottom-left",
            Origin::BottomRight => "bottom-right",
        }
    }
}

/// An RGBA color with 8-bit channels; alpha 255 is fully opaque.
#[derive(Clone, Copy, Debug, PartialEq, Eq, Structural)]
pub struct Color {
    /// Red channel.
    pub red: u8,
    /// Green channel.
    pub green: u8,
    /// Blue channel.
    pub blue: u8,
    /// Alpha channel.
    pub alpha: u8,
}

/// Log verbosity of the daemon.
#[derive(Clone, Copy, Debug, PartialEq, Eq, Structural)]
pub enum LogLevel {
    /// No logging.
    Off,
    /// Errors only.
    Error,
    /// Warnings and errors.
    Warn,
    /// Informational messages.
    Info,
    /// Debug messages.
    Debug,
    /// Everything.
    Trace,
}

/// Window geometry: size, and the offset from the origin anchor.
#[derive(Clone, Copy, Debug, PartialEq, Eq, Structural)]
pub struct Geometry {
    /// Width of the window.
    pub width: u32,
    /// Height of the window.
    pub height: u32,
    /// X offset from the origin.
    pub x: u32,
    /// Y offset from the origin.
    pub y: u32,
}

/// Whether a character is a decimal digit.
pub open spec fn spec_is_digit(c: char) -> bool {
    '0' <= c && c <= '9'
}

/// The value of a decimal digit character.
pub open spec fn spec_digit_val(c: char) -> int {
    c as int - '0' as int
}

/// The length of the run of decimal digits starting at `from`.
pub open spec fn spec_digit_run(s: Seq<char>, from: int) -> int
    decreases s.len() - from,
{
    if 0 <= from < s.len() && spec_is_digit(s[from]) {
        1 + spec_digit_run(s, from + 1)
    } else {
        0
    }
}

/// The value of the decimal digits `s[from..to)`.
pub open spec fn spec_num_val(s: Seq<char>, from: int, to: int) -> int
    decreases to - from,
{
    if from >= to {
        0
    } else {
        spec_num_val(s, from, to - 1) * 10 + spec_digit_val(s[to - 1])
    }
}

/// Geometry strings have the shape `WIDTHxHEIGHT+X+Y` with non-empty decimal
/// runs that each fit in 32 bits. This gives the four spans' boundaries.
pub open spec fn spec_geometry_spans(s: Seq<char>) -> (int, int, int, int) {
    let l1 = spec_digit_run(s, 0);
    let l2 = spec_digit_run(s, l1 + 1);
    let l3 = spec_digit_run(s, l1 + 1 + l2 + 1);
    let l4 = spec_digit_run(s, l1 + 1 + l2 + 1 + l3 + 1);
    (l1, l2, l3, l4)
}

/// Whether a geometry string is well-formed, and what it denotes.
pub open spec fn spec_parse_geometry(s: Seq<char>) -> Result<Geometry, Error> {
    let (l1, l2, l3, l4) = spec_geometry_spans(s);
    let w = spec_num_val(s, 0, l1);
    let h = spec_num_val(s, l1 + 1, l1 + 1 + l2);
    let x = spec_num_val(s, l1 + 1 + l2 + 1, l1 + 1 + l2 + 1 + l3);
    let y = spec_num_val(s, l1 + 1 + l2 + 1 + l3 + 1, l1 + 1 + l2 + 1 + l3 + 1 + l4);
    if l1 > 0 && l1 < s.len() && s[l1] == 'x' && l2 > 0 && l1 + 1 + l2 < s.len() && s[l1 + 1 + l2]
        == '+' && l3 > 0 && l1 + 1 + l2 + 1 + l3 < s.len() && s[l1 + 1 + l2 + 1 + l3] == '+' && l4
        > 0 && l1 + 1 + l2 + 1 + l3 + 1 + l4 == s.len() && w <= u32::MAX && h <= u32::MAX && x
        <= u32::MAX && y <= u32::MAX {
        Ok(Geometry { width: w as u32, height: h as u32, x: x as u32, y: y as u32 })
    } else {
        Err(Error::InvalidGeometry)
    }
}

/// Scans the digit run starting at `from`: its end, its value capped at
/// `u32::MAX`, and whether it overflowed 32 bits.
fn scan_number(v: &Vec<char>, from: usize) -> (r: (usize, u32, bool))
    requires
        from <= v@.len(),
    ensures
        r.0 == from + spec_digit_run(v@, from as int),
        forall|k: int| from <= k < r.0 ==> spec_is_digit(v@[k]),
        !r.2 ==> r.1 == spec_num_val(v@, from as int, r.0 as int) && r.1 <= u32::MAX,
        r.2 ==> spec_num_val(v@, from as int, r.0 as int) > u32::MAX,
    decreases v@.len() - from,
{
    let n = v.len();
    let mut i: usize = from;
    let mut acc: u64 = 0;
    let mut over: bool = false;
    while i < n && v[i] >= '0' && v[i] <= '9'
        invariant
            n == v@.len(),
            from <= i <= n,
            spec_digit_run(v@, from as int) == i - from + spec_digit_run(v@, i as int),
            forall|k: int| from <= k < i ==> spec_is_digit(v@[k]),
            !over ==> acc == spec_num_val(v@, from as int, i as int) && acc <= u32::MAX,
            over ==> spec_num_val(v@, from as int, i as int) > u32::MAX,
        decreases n - i,
    {
        let c = v[i];
        let d: u64 = (c as u64) - ('0' as u64);
        proof {
            assert(spec_is_digit(v@[i as int]));
            assert(d == spec_digit_val(v@[i as int]));
        }
        if !over {
            let next = acc * 10 + d;
            if next > (u32::MAX as u64) {
                over = true;
            } else {
                acc = next;
            }
        }
        proof {
            assert(spec_num_val(v@, from as int, i + 1 as int) == spec_num_val(
                v@,
                from as int,
                i as int,
            ) * 10 + spec_digit_val(v@[i as int]));
        }
        i = i + 1;
    }
    proof {
        if i < n {
            assert(!spec_is_digit(v@[i as int]));
        }
        assert(spec_digit_run(v@, i as int) == 0);
    }
    (i, acc as u32, over)
}

impl Geometry {
    /// Parses a geometry string of the shape `WIDTHxHEIGHT+X+Y`; each value
    /// is decimal and must fit in 32 bits.
    pub fn parse(s: &str) -> (r: Result<Geometry, Error>)
        ensures
            r == spec_parse_geometry(s@),
    {
        let v = chars_vec(s);
        let n = v.len();
        let (e1, w, o1) = scan_number(&v, 0);
        if e1 == 0 || e1 >= n || v[e1] != 'x' {
            return Err(Error::InvalidGeometry);
        }
        let (e2, h, o2) = scan_number(&v, e1 + 1);
        if e2 == e1 + 1 || e2 >= n || v[e2] != '+' {
            return Err(Error::InvalidGeometry);
        }
        let (e3, x, o3) = scan_number(&v, e2 + 1);
        if e3 == e2 + 1 || e3 >= n || v[e3] != '+' {
            return Err(Error::InvalidGeometry);
        }
        let (e4, y, o4) = scan_number(&v, e3 + 1);
        if e4 == e3 + 1 || e4 != n {
            return Err(Error::InvalidGeometry);
        }
        if o1 || o2 || o3 || o4 {
            return Err(Error::InvalidGeometry);
        }
        Ok(Geometry { width: w, height: h, x, y })
    }
}

/// Global configuration.
#[derive(Debug)]
pub struct GlobalConfig {
    /// Log verbosity.
    pub log_verbosity: LogLevel,
    /// Whether a startup notification should be shown.
    pub startup_notification: bool,
    /// Geometry of the notification window.
    pub geometry: Geometry,
    /// Window origin/anchor point; the geometry offsets are measured from
    /// it.
    pub origin: Origin,
    /// Whether the window is resized to wrap the content.
    pub wrap_content: bool,
    /// Text font.
    pub font: String,
    /// Template for the notification message.
    pub template: String,
    /// Maximum number of unread notifications retained at once; beyond it
    /// the oldest are evicted. 0 means unlimited.
    pub display_limit: usize,
    /// Minimum window width in pixels; unset means the window sizes to
    /// content.
    pub min_width: Option<u32>,
    /// Refresh interval in milliseconds for updating the age labels; 0
    /// disables periodic refresh.
    pub refresh_interval_ms: u64,
}

/// The default refresh interval in milliseconds.
pub fn default_refresh_interval() -> (r: u64)
    ensures
        r == 1000,
{
    1000
}

/// The column width used when no minimum window width is configured.
pub const DEFAULT_WRAP_WIDTH: u32 = 600;

impl GlobalConfig {
    /// The wrap width of the popup content: the configured minimum window
    /// width, or the default column width when none is set. The popup never
    /// grows beyond this column.
    pub fn wrap_width(&self) -> (r: u32)
        ensures
            r == match self.min_width {
                Some(w) => w,
                None => DEFAULT_WRAP_WIDTH,
            },
    {
        match self.min_width {
            Some(w) => w,
            None => DEFAULT_WRAP_WIDTH,
        }
    }
}

/// A rule for styling notifications based on patterns.
#[derive(Debug)]
pub struct NotificationRule {
    /// Pattern to match against the app name (glob-style with `*`).
    pub app_name: Option<String>,
    /// Pattern to match against the summary (glob-style with `*`).
    pub summary: Option<String>,
    /// Pattern to match against the body (glob-style with `*`).
    pub body: Option<String>,
    /// Foreground color to use for matching notifications.
    pub foreground: Option<String>,
    /// Background color to use for matching notifications.
    pub background: Option<String>,
}

/// Whether a rule matches: every specified pattern must match its field.
pub open spec fn spec_rule_matches(
    rule: NotificationRule,
    app_name: Seq<char>,
    summary: Seq<char>,
    body: Seq<char>,
) -> bool {
    &&& match rule.app_name {
        Some(p) => spec_glob(lower_of(p@), lower_of(app_name)),
        None => true,
    }
    &&& match rule.summary {
        Some(p) => spec_glob(lower_of(p@), lower_of(summary)),
        None => true,
    }
    &&& match rule.body {
        Some(p) => spec_glob(lower_of(p@), lower_of(body)),
        None => true,
    }
}

impl NotificationRule {
    /// Checks if this rule matches the given notification fields.
    pub fn matches(&self, app_name: &str, summary: &str, body: &str) -> (r: bool)
        ensures
            r == spec_rule_matches(*self, app_name@, summary@, body@),
    {
        if let Some(p) = &self.app_name {
            if !glob_match(p.as_str(), app_name) {
                return false;
            }
        }
        if let Some(p) = &self.summary {
            if !glob_match(p.as_str(), summary) {
                return false;
            }
        }
        if let Some(p) = &self.body {
            if !glob_match(p.as_str(), body) {
                return false;
            }
        }
        true
    }
}

/// A custom OS command with an optional notification filter.
#[derive(Debug)]
pub struct CustomCommand {
    /// Notification filter; the command runs only for matching
    /// notifications.
    pub filter: Option<NotificationFilter>,
    /// Command template handed to the renderer and then to the shell.
    pub command: String,
}

/// Whether a command applies to a notification at the given clock value: its
/// filter (if any) matches, and the notification has not expired. A
/// notification without an expire timeout never expires, so its commands
/// apply at any clock value.
pub open spec fn spec_command_applies(c: CustomCommand, n: Notification, now: int) -> bool {
    &&& match c.filter {
        Some(f) => spec_filter_matches(f, n),
        None => true,
    }
    &&& match n.expire_timeout {
        Some(t) => n.timestamp + t >= now,
        None => true,
    }
}

impl CustomCommand {
    /// Whether this command should run for the notification at the given
    /// clock value (seconds since the epoch). The decision is made here; the
    /// rendering of the command string and the process spawn are the
    /// caller's side effects.
    pub fn applies(&self, notification: &Notification, now: u64) -> (r: bool)
        requires
            match notification.expire_timeout {
                Some(t) => notification.timestamp + t <= u64::MAX,
                None => true,
            },
        ensures
            r == spec_command_applies(*self, *notification, now as int),
    {
        if let Some(f) = &self.filter {
            if !notification.matches_filter(f) {
                return false;
            }
        }
        match notification.expire_timeout {
            Some(t) => notification.timestamp + t >= now,
            None => true,
        }
    }
}

/// Urgency-specific configuration.
#[derive(Debug)]
pub struct UrgencyConfig {
    /// Background color.
    pub background: Color,
    /// Foreground color.
    pub foreground: Color,
    /// Timeout value in seconds.
    pub timeout: u32,
    /// Whether auto clear is enabled.
    pub auto_clear: Option<bool>,
    /// Text shown for this urgency.
    pub text: Option<String>,
    /// Custom OS commands to run.
    pub custom_commands: Option<Vec<CustomCommand>>,
}

/// Configuration snapshot.
#[derive(Debug)]
pub struct Config {
    /// Global configuration.
    pub global: GlobalConfig,
    /// Configuration for low urgency.
    pub urgency_low: UrgencyConfig,
    /// Configuration for normal urgency.
    pub urgency_normal: UrgencyConfig,
    /// Configuration for critical urgency.
    pub urgency_critical: UrgencyConfig,
    /// Color mapping for specific applications: app-name pattern to hex
    /// color, in declaration order.
    pub app_colors: Vec<(String, String)>,
    /// Notification styling rules, first match wins.
    pub rules: Vec<NotificationRule>,
}

/// Which urgency configuration applies.
pub open spec fn spec_urgency_config(c: Config, u: Urgency) -> UrgencyConfig {
    match u {
        Urgency::Low => c.urgency_low,
        Urgency::Normal => c.urgency_normal,
        Urgency::Critical => c.urgency_critical,
    }
}

/// The first entry at or after `from` whose key equals the name exactly.
pub open spec fn spec_first_exact(colors: Seq<(String, String)>, name: Seq<char>, from: int) -> Option<int>
    decreases colors.len() - from,
{
    if from < 0 || from >= colors.len() {
        None
    } else if colors[from].0@ == name {
        Some(from)
    } else {
        spec_first_exact(colors, name, from + 1)
    }
}

/// The first entry at or after `from` whose key pattern glob-matches the
/// name.
pub open spec fn spec_first_glob(colors: Seq<(String, String)>, name: Seq<char>, from: int) -> Option<int>
    decreases colors.len() - from,
{
    if from < 0 || from >= colors.len() {
        None
    } else if spec_glob(lower_of(colors[from].0@), lower_of(name)) {
        Some(from)
    } else {
        spec_first_glob(colors, name, from + 1)
    }
}

/// The color configured for an application: an exact key match wins over a
/// pattern match; among pattern matches, the first in declaration order
/// wins.
pub open spec fn spec_app_color(colors: Seq<(String, String)>, name: Seq<char>) -> Option<Seq<char>> {
    match spec_first_exact(colors, name, 0) {
        Some(i) => Some(colors[i].1@),
        None => match spec_first_glob(colors, name, 0) {
            Some(i) => Some(colors[i].1@),
            None => None,
        },
    }
}

/// The first rule at or after `from` matching the notification fields.
pub open spec fn spec_first_rule(
    rules: Seq<NotificationRule>,
    app_name: Seq<char>,
    summary: Seq<char>,
    body: Seq<char>,
    from: int,
) -> Option<int>
    decreases rules.len() - from,
{
    if from < 0 || from >= rules.len() {
        None
    } else if spec_rule_matches(rules[from], app_name, summary, body) {
        Some(from)
    } else {
        spec_first_rule(rules, app_name, summary, body, from + 1)
    }
}

impl Config {
    /// Returns the urgency configuration for the given urgency.
    pub fn get_urgency_config(&self, urgency: &Urgency) -> (r: &UrgencyConfig)
        ensures
            *r == spec_urgency_config(*self, *urgency),
    {
        match urgency {
            Urgency::Low => &self.urgency_low,
            Urgency::Normal => &self.urgency_normal,
            Urgency::Critical => &self.urgency_critical,
        }
    }

    /// Returns the color for a specific application, if configured: an exact
    /// name match first, then the first glob-style pattern match.
    pub fn get_app_color(&self, app_name: &str) -> (r: Option<&String>)
        ensures
            match r {
                Some(c) => spec_app_color(self.app_colors@, app_name@) == Some(c@),
                None => spec_app_color(self.app_colors@, app_name@) is None,
            },
    {
        let key: String = app_name.to_owned();
        let n = self.app_colors.len();
        let mut i: usize = 0;
        #[verifier::loop_isolation(false)]
        while i < n
            invariant
                spec_first_exact(self.app_colors@, app_name@, 0) == spec_first_exact(
                    self.app_colors@,
                    app_name@,
                    i as int,
                ),
                i <= n,
            decreases n - i,
        {
            if self.app_colors[i].0 == key {
                return Some(&self.app_colors[i].1);
            }
            i = i + 1;
        }
        let mut j: usize = 0;
        #[verifier::loop_isolation(false)]
        while j < n
            invariant
                spec_first_exact(self.app_colors@, app_name@, 0) is None,
                spec_first_glob(self.app_colors@, app_name@, 0) == spec_first_glob(
                    self.app_colors@,
                    app_name@,
                    j as int,
                ),
                j <= n,
            decreases n - j,
        {
            let pat = &self.app_colors[j].0;
            if glob_match(pat.as_str(), app_name) {
                return Some(&self.app_colors[j].1);
            }
            j = j + 1;
        }
        None
    }

    /// Returns the first matching styling rule for the notification fields,
    /// if any.
    pub fn get_matching_rule(&self, app_name: &str, summary: &str, body: &str) -> (r: Option<
        &NotificationRule,
    >)
        ensures
            match r {
                Some(rule) => {
                    &&& spec_first_rule(self.rules@, app_name@, summary@, body@, 0) is Some
                    &&& *rule == self.rules@[spec_first_rule(
                        self.rules@,
                        app_name@,
                        summary@,
                        body@,
                        0,
                    )->Some_0]
                },
                None => spec_first_rule(self.rules@, app_name@, summary@, body@, 0) is None,
            },
    {
        let n = self.rules.len();
        let mut i: usize = 0;
        #[verifier::loop_isolation(false)]
        while i < n
            invariant
                spec_first_rule(self.rules@, app_name@, summary@, body@, 0) == spec_first_rule(
                    self.rules@,
                    app_name@,
                    summary@,
                    body@,
                    i as int,
                ),
                i <= n,
            decreases n - i,
        {
            let rule = &self.rules[i];
            if rule.matches(app_name, summary, body) {
                return Some(rule);
            }
            i = i + 1;
        }
        None
    }

    /// The background override for a notification: the first matching rule's
    /// background if it has one, else the configured app color, else none.
    pub fn resolve_background(&self, n: &Notification) -> (r: Option<String>)
        ensures
            match r {
                Some(c) => spec_resolve_background(*self, *n) == Some(c@),
                None => spec_resolve_background(*self, *n) is None,
            },
    {
        let rule = self.get_matching_rule(n.app_name.as_str(), n.summary.as_str(), n.body.as_str());
        if let Some(rule) = rule {
            if let Some(bg) = &rule.background {
                return Some(bg.clone());
            }
        }
        match self.get_app_color(n.app_name.as_str()) {
            Some(c) => Some(c.clone()),
            None => None,
        }
    }
}

/// The resolved background of a notification: a matching rule's background
/// override wins; otherwise the app-color lookup decides.
pub open spec fn spec_resolve_background(c: Config, n: Notification) -> Option<Seq<char>> {
    let rule = spec_first_rule(c.rules@, n.app_name@, n.summary@, n.body@, 0);
    match rule {
        Some(i) => match c.rules@[i].background {
            Some(bg) => Some(bg@),
            None => spec_app_color(c.app_colors@, n.app_name@),
        },
        None => spec_app_color(c.app_colors@, n.app_name@),
    }
}

} // verus!

//! The layout model that reconciliation reads: monitors holding workspaces,
//! workspaces holding containers and floating windows, containers holding
//! stacked windows. Each level carries its own focus index.
//!
//! Deep structural equality over these types is what the reconciliation
//! engine's change gate compares, so every type here has an executable
//! equality whose meaning is pinned by a spec predicate over views.

use crate::core_types::Rect;
use crate::core_types::WorkspaceLayer;
use vstd::prelude::*;

verus! {

/// One managed application window, identified by its native handle.
#[derive(Debug, Clone, Copy, PartialEq, Eq, Structural)]
pub struct Window {
    pub hwnd: isize,
}

/// A layout unit holding one or more stacked windows.
#[derive(Debug)]
pub struct Container {
    /// Stable identity of the container across reconciliation passes.
    pub id: String,
    pub windows: Vec<Window>,
    pub focused_window_idx: usize,
    /// A locked container keeps its slot in the layout.
    pub locked: bool,
}

/// Per-workspace configuration that survives a monitor disconnect.
#[derive(Debug)]
pub struct WorkspaceConfig {
    pub workspace_rules: Vec<String>,
    pub initial_workspace_rules: Vec<String>,
}

/// One workspace of a monitor.
#[derive(Debug)]
pub struct Workspace {
    /// Workspaces with tiling disabled have no borders and no stackbars.
    pub tile: bool,
    pub containers: Vec<Container>,
    pub focused_container_idx: usize,
    /// A monocle container temporarily occupies the whole workspace.
    pub monocle_container: Option<Container>,
    pub maximized_window: Option<Window>,
    pub floating_windows: Vec<Window>,
    pub layer: WorkspaceLayer,
    pub container_padding: Option<i32>,
    pub config: Option<WorkspaceConfig>,
}

/// One display with its workspaces.
#[derive(Debug)]
pub struct Monitor {
    /// Native monitor handle.
    pub id: isize,
    pub name: String,
    pub device: String,
    pub device_id: String,
    pub serial_number_id: Option<String>,
    pub size: Rect,
    pub work_area_size: Rect,
    pub work_area_offset: Option<Rect>,
    pub container_padding: Option<i32>,
    pub workspace_padding: Option<i32>,
    pub wallpaper: Option<String>,
    pub last_focused_workspace: Option<usize>,
    pub workspaces: Vec<Workspace>,
    pub focused_workspace_idx: usize,
}

pub open spec fn opt_string_eq(a: Option<String>, b: Option<String>) -> bool {
    match (a, b) {
        (Option::None, Option::None) => true,
        (Option::Some(x), Option::Some(y)) => x@ == y@,
        _ => false,
    }
}

pub open spec fn string_seq_eq(a: Seq<String>, b: Seq<String>) -> bool {
    a.len() == b.len() && forall|i: int| 0 <= i < a.len() ==> a[i]@ == #[trigger] b[i]@
}

pub open spec fn container_eq(a: Container, b: Container) -> bool {
    &&& a.id@ == b.id@
    &&& a.windows@ == b.windows@
    &&& a.focused_window_idx == b.focused_window_idx
    &&& a.locked == b.locked
}

pub open spec fn containers_eq(a: Seq<Container>, b: Seq<Container>) -> bool {
    a.len() == b.len() && forall|i: int| 0 <= i < a.len() ==> #[trigger] container_eq(a[i], b[i])
}

pub open spec fn opt_container_eq(a: Option<Container>, b: Option<Container>) -> bool {
    match (a, b) {
        (Option::None, Option::None) => true,
        (Option::Some(x), Option::Some(y)) => container_eq(x, y),
        _ => false,
    }
}

pub open spec fn config_eq(a: WorkspaceConfig, b: WorkspaceConfig) -> bool {
    string_seq_eq(a.workspace_rules@, b.workspace_rules@) && string_seq_eq(
        a.initial_workspace_rules@,
        b.initial_workspace_rules@,
    )
}

pub open spec fn opt_config_eq(a: Option<WorkspaceConfig>, b: Option<WorkspaceConfig>) -> bool {
    match (a, b) {
        (Option::None, Option::None) => true,
        (Option::Some(x), Option::Some(y)) => config_eq(x, y),
        _ => false,
    }
}

pub open spec fn workspace_eq(a: Workspace, b: Workspace) -> bool {
    &&& a.tile == b.tile
    &&& containers_eq(a.containers@, b.containers@)
    &&& a.focused_container_idx == b.focused_container_idx
    &&& opt_container_eq(a.monocle_container, b.monocle_container)
    &&& a.maximized_window == b.maximized_window
    &&& a.floating_windows@ == b.floating_windows@
    &&& a.layer == b.layer
    &&& a.container_padding == b.container_padding
    &&& opt_config_eq(a.config, b.config)
}

pub open spec fn workspaces_eq(a: Seq<Workspace>, b: Seq<Workspace>) -> bool {
    a.len() == b.len() && forall|i: int| 0 <= i < a.len() ==> #[trigger] workspace_eq(a[i], b[i])
}

pub open spec fn monitor_eq(a: Monitor, b: Monitor) -> bool {
    &&& a.id == b.id
    &&& a.name@ == b.name@
    &&& a.device@ == b.device@
    &&& a.device_id@ == b.device_id@
    &&& opt_string_eq(a.serial_number_id, b.serial_number_id)
    &&& a.size == b.size
    &&& a.work_area_size == b.work_area_size
    &&& a.work_area_offset == b.work_area_offset
    &&& a.container_padding == b.container_padding
    &&& a.workspace_padding == b.workspace_padding
    &&& opt_string_eq(a.wallpaper, b.wallpaper)
    &&& a.last_focused_workspace == b.last_focused_workspace
    &&& workspaces_eq(a.workspaces@, b.workspaces@)
    &&& a.focused_workspace_idx == b.focused_workspace_idx
}

pub open spec fn monitors_eq(a: Seq<Monitor>, b: Seq<Monitor>) -> bool {
    a.len() == b.len() && forall|i: int| 0 <= i < a.len() ==> #[trigger] monitor_eq(a[i], b[i])
}

pub proof fn lemma_workspace_eq_refl(w: Workspace)
    ensures
        workspace_eq(w, w),
{
    assert forall|i: int| 0 <= i < w.containers@.len() implies #[trigger] container_eq(
        w.containers@[i],
        w.containers@[i],
    ) by {}
    match w.monocle_container {
        Some(c) => {
            assert(container_eq(c, c));
        },
        None => {},
    }
}

pub proof fn lemma_workspaces_eq_refl(s: Seq<Workspace>)
    ensures
        workspaces_eq(s, s),
{
    assert forall|i: int| 0 <= i < s.len() implies #[trigger] workspace_eq(s[i], s[i]) by {
        lemma_workspace_eq_refl(s[i]);
    }
}

fn windows_vec_eq(a: &Vec<Window>, b: &Vec<Window>) -> (r: bool)
    ensures
        r == (a@ == b@),
{
    if a.len() != b.len() {
        proof {
            assert(a@.len() != b@.len());
        }
        return false;
    }
    let mut i: usize = 0;
    while i < a.len()
        invariant
            0 <= i <= a.len(),
            a@.len() == b@.len(),
            forall|j: int| 0 <= j < i ==> a@[j] == b@[j],
        decreases a.len() - i,
    {
        if a[i].hwnd != b[i].hwnd {
            return false;
        }
        i = i + 1;
    }
    proof {
        assert(a@ =~= b@);
    }
    true
}

fn opt_string_vec_eq(a: &Option<String>, b: &Option<String>) -> (r: bool)
    ensures
        r == opt_string_eq(*a, *b),
{
    match (a, b) {
        (Option::None, Option::None) => true,
        (Option::Some(x), Option::Some(y)) => *x == *y,
        _ => false,
    }
}

fn string_vec_eq(a: &Vec<String>, b: &Vec<String>) -> (r: bool)
    ensures
        r == string_seq_eq(a@, b@),
{
    if a.len() != b.len() {
        return false;
    }
    let mut i: usize = 0;
    while i < a.len()
        invariant
            0 <= i <= a.len(),
            a@.len() == b@.len(),
            forall|j: int| 0 <= j < i ==> a@[j]@ == #[trigger] b@[j]@,
        decreases a.len() - i,
    {
        if !(a[i] == b[i]) {
            return false;
        }
        i = i + 1;
    }
    true
}

impl PartialEq for Container {
    fn eq(&self, other: &Container) -> (r: bool) {
        self.id == other.id && windows_vec_eq(&self.windows, &other.windows)
            && self.focused_window_idx == other.focused_window_idx && self.locked == other.locked
    }
}

impl vstd::std_specs::cmp::PartialEqSpecImpl for Container {
    open spec fn obeys_eq_spec() -> bool {
        true
    }

    open spec fn eq_spec(&self, other: &Container) -> bool {
        container_eq(*self, *other)
    }
}

fn containers_vec_eq(a: &Vec<Container>, b: &Vec<Container>) -> (r: bool)
    ensures
        r == containers_eq(a@, b@),
{
    if a.len() != b.len() {
        return false;
    }
    let mut i: usize = 0;
    while i < a.len()
        invariant
            0 <= i <= a.len(),
            a@.len() == b@.len(),
            forall|j: int| 0 <= j < i ==> #[trigger] container_eq(a@[j], b@[j]),
        decreases a.len() - i,
    {
        if !(&a[i] == &b[i]) {
            return false;
        }
        i = i + 1;
    }
    true
}

fn opt_container_vec_eq(a: &Option<Container>, b: &Option<Container>) -> (r: bool)
    ensures
        r == opt_container_eq(*a, *b),
{
    match (a, b) {
        (Option::None, Option::None) => true,
        (Option::Some(x), Option::Some(y)) => x == y,
        _ => false,
    }
}

impl PartialEq for WorkspaceConfig {
    fn eq(&self, other: &WorkspaceConfig) -> (r: bool) {
        string_vec_eq(&self.workspace_rules, &other.workspace_rules) && string_vec_eq(
            &self.initial_workspace_rules,
            &other.initial_workspace_rules,
        )
    }
}

impl vstd::std_specs::cmp::PartialEqSpecImpl for WorkspaceConfig {
    open spec fn obeys_eq_spec() -> bool {
        true
    }

    open spec fn eq_spec(&self, other: &WorkspaceConfig) -> bool {
        config_eq(*self, *other)
    }
}

impl PartialEq for Workspace {
    fn eq(&self, other: &Workspace) -> (r: bool) {
        let monocle_eq = match (&self.monocle_container, &other.monocle_container) {
            (Option::None, Option::None) => true,
            (Option::Some(x), Option::Some(y)) => x == y,
            _ => false,
        };
        let config_matches = match (&self.config, &other.config) {
            (Option::None, Option::None) => true,
            (Option::Some(x), Option::Some(y)) => x == y,
            _ => false,
        };
        self.tile == other.tile && containers_vec_eq(&self.containers, &other.containers)
            && self.focused_container_idx == other.focused_container_idx && monocle_eq
            && self.maximized_window == other.maximized_window && windows_vec_eq(
            &self.floating_windows,
            &other.floating_windows,
        ) && self.layer == other.layer && self.container_padding == other.container_padding
            && config_matches
    }
}

impl vstd::std_specs::cmp::PartialEqSpecImpl for Workspace {
    open spec fn obeys_eq_spec() -> bool {
        true
    }

    open spec fn eq_spec(&self, other: &Workspace) -> bool {
        workspace_eq(*self, *other)
    }
}

fn workspaces_vec_eq(a: &Vec<Workspace>, b: &Vec<Workspace>) -> (r: bool)
    ensures
        r == workspaces_eq(a@, b@),
{
    if a.len() != b.len() {
        return false;
    }
    let mut i: usize = 0;
    while i < a.len()
        invariant
            0 <= i <= a.len(),
            a@.len() == b@.len(),
            forall|j: int| 0 <= j < i ==> #[trigger] workspace_eq(a@[j], b@[j]),
        decreases a.len() - i,
    {
        if !(&a[i] == &b[i]) {
            return false;
        }
        i = i + 1;
    }
    true
}

impl PartialEq for Monitor {
    fn eq(&self, other: &Monitor) -> (r: bool) {
        self.id == other.id && self.name == other.name && self.device == other.device
            && self.device_id == other.device_id && opt_string_vec_eq(
            &self.serial_number_id,
            &other.serial_number_id,
        ) && self.size == other.size && self.work_area_size == other.work_area_size
            && self.work_area_offset == other.work_area_offset && self.container_padding
            == other.container_padding && self.workspace_padding == other.workspace_padding
            && opt_string_vec_eq(&self.wallpaper, &other.wallpaper) && self.last_focused_workspace
            == other.last_focused_workspace && workspaces_vec_eq(
            &self.workspaces,
            &other.workspaces,
        ) && self.focused_workspace_idx == other.focused_workspace_idx
    }
}

impl vstd::std_specs::cmp::PartialEqSpecImpl for Monitor {
    open spec fn obeys_eq_spec() -> bool {
        true
    }

    open spec fn eq_spec(&self, other: &Monitor) -> bool {
        monitor_eq(*self, *other)
    }
}

fn clone_windows(v: &Vec<Window>) -> (r: Vec<Window>)
    ensures
        r@ == v@,
{
    let mut out: Vec<Window> = Vec::new();
    let mut i: usize = 0;
    while i < v.len()
        invariant
            0 <= i <= v.len(),
            out@ == v@.subrange(0, i as int),
        decreases v.len() - i,
    {
        out.push(v[i]);
        i = i + 1;
    }
    proof {
        assert(out@ =~= v@);
    }
    out
}

fn clone_strings(v: &Vec<String>) -> (r: Vec<String>)
    ensures
        string_seq_eq(r@, v@),
{
    let mut out: Vec<String> = Vec::new();
    let mut i: usize = 0;
    while i < v.len()
        invariant
            0 <= i <= v.len(),
            out@.len() == i,
            forall|j: int| 0 <= j < i ==> out@[j]@ == #[trigger] v@[j]@,
        decreases v.len() - i,
    {
        out.push(v[i].clone());
        i = i + 1;
    }
    out
}

pub fn clone_opt_string(v: &Option<String>) -> (r: Option<String>)
    ensures
        opt_string_eq(r, *v),
{
    match v {
        Option::None => Option::None,
        Option::Some(s) => Option::Some(s.clone()),
    }
}

impl Clone for Container {
    fn clone(&self) -> (r: Self)
        ensures
            container_eq(r, *self),
    {
        Container {
            id: self.id.clone(),
            windows: clone_windows(&self.windows),
            focused_window_idx: self.focused_window_idx,
            locked: self.locked,
        }
    }
}

fn clone_containers(v: &Vec<Container>) -> (r: Vec<Container>)
    ensures
        containers_eq(r@, v@),
{
    let mut out: Vec<Container> = Vec::new();
    let mut i: usize = 0;
    while i < v.len()
        invariant
            0 <= i <= v.len(),
            out@.len() == i,
            forall|j: int| 0 <= j < i ==> #[trigger] container_eq(out@[j], v@[j]),
        decreases v.len() - i,
    {
        out.push(v[i].clone());
        i = i + 1;
    }
    out
}

impl Clone for WorkspaceConfig {
    fn clone(&self) -> (r: Self)
        ensures
            config_eq(r, *self),
    {
        WorkspaceConfig {
            workspace_rules: clone_strings(&self.workspace_rules),
            initial_workspace_rules: clone_strings(&self.initial_workspace_rules),
        }
    }
}

impl Clone for Workspace {
    fn clone(&self) -> (r: Self)
        ensures
            workspace_eq(r, *self),
    {
        let monocle = match &self.monocle_container {
            Option::None => Option::None,
            Option::Some(c) => Option::Some(c.clone()),
        };
        let config = match &self.config {
            Option::None => Option::None,
            Option::Some(c) => Option::Some(c.clone()),
        };
        Workspace {
            tile: self.tile,
            containers: clone_containers(&self.containers),
            focused_container_idx: self.focused_container_idx,
            monocle_container: monocle,
            maximized_window: self.maximized_window,
            floating_windows: clone_windows(&self.floating_windows),
            layer: self.layer,
            container_padding: self.container_padding,
            config,
        }
    }
}

fn clone_workspaces(v: &Vec<Workspace>) -> (r: Vec<Workspace>)
    ensures
        workspaces_eq(r@, v@),
{
    let mut out: Vec<Workspace> = Vec::new();
    let mut i: usize = 0;
    while i < v.len()
        invariant
            0 <= i <= v.len(),
            out@.len() == i,
            forall|j: int| 0 <= j < i ==> #[trigger] workspace_eq(out@[j], v@[j]),
        decreases v.len() - i,
    {
        out.push(v[i].clone());
        i = i + 1;
    }
    out
}

impl Clone for Monitor {
    fn clone(&self) -> (r: Self)
        ensures
            monitor_eq(r, *self),
    {
        Monitor {
            id: self.id,
            name: self.name.clone(),
            device: self.device.clone(),
            device_id: self.device_id.clone(),
            serial_number_id: clone_opt_string(&self.serial_number_id),
            size: self.size,
            work_area_size: self.work_area_size,
            work_area_offset: self.work_area_offset,
            container_padding: self.container_padding,
            workspace_padding: self.workspace_padding,
            wallpaper: clone_opt_string(&self.wallpaper),
            last_focused_workspace: self.last_focused_workspace,
            workspaces: clone_workspaces(&self.workspaces),
            focused_workspace_idx: self.focused_workspace_idx,
        }
    }
}

pub fn clone_monitors(v: &Vec<Monitor>) -> (r: Vec<Monitor>)
    ensures
        monitors_eq(r@, v@),
{
    let mut out: Vec<Monitor> = Vec::new();
    let mut i: usize = 0;
    while i < v.len()
        invariant
            0 <= i <= v.len(),
            out@.len() == i,
            forall|j: int| 0 <= j < i ==> #[trigger] monitor_eq(out@[j], v@[j]),
        decreases v.len() - i,
    {
        out.push(v[i].clone());
        i = i + 1;
    }
    out
}

pub fn monitors_vec_eq(a: &Vec<Monitor>, b: &Vec<Monitor>) -> (r: bool)
    ensures
        r == monitors_eq(a@, b@),
{
    if a.len() != b.len() {
        return false;
    }
    let mut i: usize = 0;
    while i < a.len()
        invariant
            0 <= i <= a.len(),
            a@.len() == b@.len(),
            forall|j: int| 0 <= j < i ==> #[trigger] monitor_eq(a@[j], b@[j]),
        decreases a.len() - i,
    {
        if !(&a[i] == &b[i]) {
            return false;
        }
        i = i + 1;
    }
    true
}

impl Container {
    /// The window the container's focus index points at, if any.
    pub fn focused_window(&self) -> (r: Option<Window>)
        ensures
            self.focused_window_idx < self.windows@.len() ==> r == Some(
                self.windows@[self.focused_window_idx as int],
            ),
            self.focused_window_idx >= self.windows@.len() ==> r is None,
    {
        if self.focused_window_idx < self.windows.len() {
            Some(self.windows[self.focused_window_idx])
        } else {
            None
        }
    }
}

impl Workspace {
    /// An empty workspace with tiling enabled.
    pub fn empty() -> (w: Workspace)
        ensures
            w.tile == true,
            w.containers@.len() == 0,
            w.focused_container_idx == 0,
            w.monocle_container is None,
            w.maximized_window is None,
            w.floating_windows@.len() == 0,
            w.layer is Tiling,
            w.container_padding is None,
            w.config is None,
    {
        Workspace {
            tile: true,
            containers: Vec::new(),
            focused_container_idx: 0,
            monocle_container: None,
            maximized_window: None,
            floating_windows: Vec::new(),
            layer: WorkspaceLayer::Tiling,
            container_padding: None,
            config: None,
        }
    }
}

impl Monitor {
    /// The workspace the monitor's focus index points at, if any.
    pub fn focused_workspace(&self) -> (r: Option<&Workspace>)
        ensures
            self.focused_workspace_idx < self.workspaces@.len() ==> r == Some(
                &self.workspaces@[self.focused_workspace_idx as int],
            ),
            self.focused_workspace_idx >= self.workspaces@.len() ==> r is None,
    {
        if self.focused_workspace_idx < self.workspaces.len() {
            Some(&self.workspaces[self.focused_workspace_idx])
        } else {
            None
        }
    }
}

/// Builds a monitor around one empty workspace, as the display enumeration
/// hands them to the manager.
pub fn new(
    id: isize,
    size: Rect,
    work_area_size: Rect,
    name: String,
    device: String,
    device_id: String,
    serial_number_id: Option<String>,
) -> (m: Monitor)
    ensures
        m.id == id,
        m.name@ == name@,
        m.device@ == device@,
        m.device_id@ == device_id@,
        opt_string_eq(m.serial_number_id, serial_number_id),
        m.size == size,
        m.work_area_size == work_area_size,
        m.work_area_offset is None,
        m.container_padding is None,
        m.workspace_padding is None,
        m.wallpaper is None,
        m.last_focused_workspace is None,
        m.workspaces@.len() == 1,
        m.focused_workspace_idx == 0,
{
    let mut workspaces: Vec<Workspace> = Vec::new();
    workspaces.push(Workspace::empty());
    Monitor {
        id,
        name,
        device,
        device_id,
        serial_number_id,
        size,
        work_area_size,
        work_area_offset: None,
        container_padding: None,
        workspace_padding: None,
        wallpaper: None,
        last_focused_workspace: None,
        workspaces,
        focused_workspace_idx: 0,
    }
}

} // verus!

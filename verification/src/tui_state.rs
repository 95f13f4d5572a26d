//! The state of the admin dashboard: the log view and the configuration
//! editor's panes, selections and edit buffers.
use vstd::prelude::*;
use vstd::string::StringExecFns;
use crate::strmap::StrMap;
use crate::types::LogLevel;

verus! {

/// The dashboard's two views.
#[derive(Debug, Clone, Copy, PartialEq, Eq, Structural)]
pub enum AppMode {
    Logs,
    Config,
}

/// The panes of the configuration view.
#[derive(Debug, Clone, Copy, PartialEq, Eq, Structural)]
pub enum ConfigPane {
    PluginList,
    FieldList,
    ListManager,
    ItemEditor,
}

/// The dashboard's state.
#[derive(Debug)]
pub struct AppState {
    pub logs: Vec<(LogLevel, String)>,
    pub log_scroll: u16,
    pub log_auto_scroll: bool,
    pub log_scroll_max: u16,
    pub input_mode: bool,
    pub input_buffer: String,
    pub mode: AppMode,
    pub config_pane: ConfigPane,
    pub selected_plugin_index: usize,
    pub selected_field_index: usize,
    pub is_editing: bool,
    pub edit_buffer: String,
    pub is_dropdown_open: bool,
    pub dropdown_selected_index: usize,
    pub selected_list_item_index: usize,
    pub item_edit_buffer: StrMap,
    pub item_edit_field_index: usize,
    pub item_editing_index: Option<usize>,
    pub item_subfield_editing: bool,
    pub item_subfield_buffer: String,
    pub item_dropdown_open: bool,
    pub item_dropdown_index: usize,
}

/// The abstract dashboard state.
pub struct AppView {
    pub logs: Seq<(LogLevel, Seq<char>)>,
    pub log_scroll: u16,
    pub log_auto_scroll: bool,
    pub log_scroll_max: u16,
    pub input_mode: bool,
    pub input_buffer: Seq<char>,
    pub mode: AppMode,
    pub config_pane: ConfigPane,
    pub selected_plugin_index: usize,
    pub selected_field_index: usize,
    pub is_editing: bool,
    pub edit_buffer: Seq<char>,
    pub is_dropdown_open: bool,
    pub dropdown_selected_index: usize,
    pub selected_list_item_index: usize,
    pub item_edit_buffer: Map<Seq<char>, Seq<char>>,
    pub item_edit_field_index: usize,
    pub item_editing_index: Option<usize>,
    pub item_subfield_editing: bool,
    pub item_subfield_buffer: Seq<char>,
    pub item_dropdown_open: bool,
    pub item_dropdown_index: usize,
}

impl View for AppState {
    type V = AppView;

    open spec fn view(&self) -> AppView {
        AppView {
            logs: self.logs.deep_view(),
            log_scroll: self.log_scroll,
            log_auto_scroll: self.log_auto_scroll,
            log_scroll_max: self.log_scroll_max,
            input_mode: self.input_mode,
            input_buffer: self.input_buffer@,
            mode: self.mode,
            config_pane: self.config_pane,
            selected_plugin_index: self.selected_plugin_index,
            selected_field_index: self.selected_field_index,
            is_editing: self.is_editing,
            edit_buffer: self.edit_buffer@,
            is_dropdown_open: self.is_dropdown_open,
            dropdown_selected_index: self.dropdown_selected_index,
            selected_list_item_index: self.selected_list_item_index,
            item_edit_buffer: self.item_edit_buffer@,
            item_edit_field_index: self.item_edit_field_index,
            item_editing_index: self.item_editing_index,
            item_subfield_editing: self.item_subfield_editing,
            item_subfield_buffer: self.item_subfield_buffer@,
            item_dropdown_open: self.item_dropdown_open,
            item_dropdown_index: self.item_dropdown_index,
        }
    }
}

/// The state the dashboard starts in: the log view, following new lines.
pub open spec fn initial_view() -> AppView {
    AppView {
        logs: Seq::empty(),
        log_scroll: 0,
        log_auto_scroll: true,
        log_scroll_max: 0,
        input_mode: false,
        input_buffer: Seq::empty(),
        mode: AppMode::Logs,
        config_pane: ConfigPane::PluginList,
        selected_plugin_index: 0,
        selected_field_index: 0,
        is_editing: false,
        edit_buffer: Seq::empty(),
        is_dropdown_open: false,
        dropdown_selected_index: 0,
        selected_list_item_index: 0,
        item_edit_buffer: Map::empty(),
        item_edit_field_index: 0,
        item_editing_index: None,
        item_subfield_editing: false,
        item_subfield_buffer: Seq::empty(),
        item_dropdown_open: false,
        item_dropdown_index: 0,
    }
}

/// The most log lines the dashboard keeps.
pub const MAX_LOG_LINES: usize = 200;

impl AppState {
    /// The state the dashboard starts in.
    pub fn new() -> (s: AppState)
        ensures
            s@ == initial_view(),
    {
        let s = AppState {
            logs: Vec::new(),
            log_scroll: 0,
            log_auto_scroll: true,
            log_scroll_max: 0,
            input_mode: false,
            input_buffer: String::new(),
            mode: AppMode::Logs,
            config_pane: ConfigPane::PluginList,
            selected_plugin_index: 0,
            selected_field_index: 0,
            is_editing: false,
            edit_buffer: String::new(),
            is_dropdown_open: false,
            dropdown_selected_index: 0,
            selected_list_item_index: 0,
            item_edit_buffer: StrMap::new(),
            item_edit_field_index: 0,
            item_editing_index: None,
            item_subfield_editing: false,
            item_subfield_buffer: String::new(),
            item_dropdown_open: false,
            item_dropdown_index: 0,
        };
        assert(s@.logs =~= Seq::<(LogLevel, Seq<char>)>::empty());
        s
    }

    /// Adds a log line at the end.
    pub fn push_log(&mut self, level: LogLevel, msg: String)
        ensures
            final(self)@ == (AppView { logs: old(self)@.logs.push((level, msg@)), ..old(self)@ }),
    {
        crate::vecs::push_deep(&mut self.logs, (level, msg));
    }

    /// Drops the oldest log line when there are more than the dashboard
    /// keeps (one per frame).
    pub fn trim_logs(&mut self)
        ensures
            final(self)@ == (if old(self)@.logs.len() > MAX_LOG_LINES {
                AppView { logs: old(self)@.logs.remove(0), ..old(self)@ }
            } else {
                old(self)@
            }),
    {
        if self.logs.len() > MAX_LOG_LINES {
            crate::vecs::remove_deep(&mut self.logs, 0);
        }
    }

    /// Pastes `text` into the buffer being typed in: the field editor, the
    /// command line, or an item's sub-field, in that order of precedence.
    pub fn paste(&mut self, text: &str)
        ensures
            final(self)@ == (if old(self)@.is_editing {
                AppView { edit_buffer: old(self)@.edit_buffer + text@, ..old(self)@ }
            } else if old(self)@.input_mode {
                AppView { input_buffer: old(self)@.input_buffer + text@, ..old(self)@ }
            } else if old(self)@.item_subfield_editing {
                AppView { item_subfield_buffer: old(self)@.item_subfield_buffer + text@, ..old(self)@ }
            } else {
                old(self)@
            }),
    {
        if self.is_editing {
            self.edit_buffer.append(text);
        } else if self.input_mode {
            self.input_buffer.append(text);
        } else if self.item_subfield_editing {
            self.item_subfield_buffer.append(text);
        }
    }
}

} // verus!

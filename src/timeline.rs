//! The event record, its display forms and its free-text search.

use crate::text::{Trim, 
    all_words_occur, chars_of, lower_of, lowercase, trim, trim_str, trimmed, words_occur,
};
use crate::time::{parse_time, parsed_time, Timestamp};
use vstd::prelude::*;
use vstd::string::*;

verus! {

/// One event of a device timeline. Every field is optional text; a cell with
/// no value is `None`.
#[derive(Clone, Debug, Default)]
pub struct TimelineEvent {
    pub event_time: Option<String>,
    pub machine_id: Option<String>,
    pub computer_name: Option<String>,
    pub action_type: Option<String>,
    pub file_name: Option<String>,
    pub folder_path: Option<String>,
    pub sha1: Option<String>,
    pub sha256: Option<String>,
    pub md5: Option<String>,
    pub process_command_line: Option<String>,
    pub account_domain: Option<String>,
    pub account_name: Option<String>,
    pub account_sid: Option<String>,
    pub logon_id: Option<String>,
    pub process_id: Option<String>,
    pub process_creation_time: Option<String>,
    pub process_token_elevation: Option<String>,
    pub registry_key: Option<String>,
    pub registry_value_name: Option<String>,
    pub registry_value_data: Option<String>,
    pub remote_url: Option<String>,
    pub remote_computer_name: Option<String>,
    pub remote_ip: Option<String>,
    pub remote_port: Option<String>,
    pub local_ip: Option<String>,
    pub local_port: Option<String>,
    pub file_origin_url: Option<String>,
    pub file_origin_ip: Option<String>,
    pub initiating_process_sha1: Option<String>,
    pub initiating_process_sha256: Option<String>,
    pub initiating_process_file_name: Option<String>,
    pub initiating_process_folder_path: Option<String>,
    pub initiating_process_id: Option<String>,
    pub initiating_process_command_line: Option<String>,
    pub initiating_process_creation_time: Option<String>,
    pub initiating_process_integrity_level: Option<String>,
    pub initiating_process_token_elevation: Option<String>,
    pub initiating_process_parent_id: Option<String>,
    pub initiating_process_parent_file_name: Option<String>,
    pub initiating_process_parent_creation_time: Option<String>,
    pub initiating_process_md5: Option<String>,
    pub initiating_process_account_domain: Option<String>,
    pub initiating_process_account_name: Option<String>,
    pub initiating_process_account_sid: Option<String>,
    pub initiating_process_logon_id: Option<String>,
    pub report_id: Option<String>,
    pub additional_fields: Option<String>,
    pub typed_details: Option<String>,
    pub app_guard_container_id: Option<String>,
    pub protocol: Option<String>,
    pub logon_type: Option<String>,
    pub process_integrity_level: Option<String>,
    pub registry_value_type: Option<String>,
    pub previous_registry_value_name: Option<String>,
    pub previous_registry_value_data: Option<String>,
    pub previous_registry_key: Option<String>,
    pub file_origin_referrer_url: Option<String>,
    pub sensitivity_label: Option<String>,
    pub sensitivity_sub_label: Option<String>,
    pub is_endpoint_dlp_applied: Option<String>,
    pub is_azure_info_protection_applied: Option<String>,
    pub alert_ids: Option<String>,
    pub categories: Option<String>,
    pub severities: Option<String>,
    pub is_marked: Option<String>,
    pub data_type: Option<String>,
}

/// A value as displayed: surrounding double quotes and whitespace removed.
pub open spec fn clean(v: Seq<char>) -> Seq<char> {
    trimmed(v, Trim::QuoteOrSpace)
}

/// The cleaned value of an optional field; empty when absent.
pub open spec fn clean_opt(v: Option<String>) -> Seq<char> {
    match v {
        Some(s) => clean(s@),
        None => Seq::empty(),
    }
}

/// The detail pair for one field: present only when the cleaned value is not empty.
pub open spec fn detail_entry(label: Seq<char>, v: Option<String>) -> Seq<(Seq<char>, Seq<char>)> {
    if clean_opt(v).len() > 0 {
        seq![(label, clean_opt(v))]
    } else {
        Seq::empty()
    }
}

/// One field's share of the search text: its lowercase form and a space.
pub open spec fn search_piece(v: Option<String>) -> Seq<char> {
    match v {
        Some(s) => lower_of(s@) + seq![' '],
        None => Seq::empty(),
    }
}

/// The character views of a list of (label, value) pairs.
pub open spec fn pairs_view(s: Seq<(String, String)>) -> Seq<(Seq<char>, Seq<char>)> {
    s.map_values(|p: (String, String)| (p.0@, p.1@))
}

/// Whether an optional time falls within the inclusive bounds; with no time,
/// only when both bounds are absent.
pub open spec fn within(t: Option<Timestamp>, start: Option<Timestamp>, end: Option<Timestamp>) -> bool {
    match t {
        Some(t) => (start matches Some(s) ==> s.le(t)) && (end matches Some(e) ==> t.le(e)),
        None => start is None && end is None,
    }
}

/// The cleaned value of an optional field.
fn clean_field(v: &Option<String>) -> (r: &str)
    ensures
        r@ == clean_opt(*v),
{
    match v {
        Some(s) => trim_str(s.as_str(), Trim::QuoteOrSpace),
        None => {
            proof {
                reveal_strlit("");
            }
            assert(""@ =~= Seq::<char>::empty());
            ""
        },
    }
}

fn push_detail(out: &mut Vec<(String, String)>, label: &str, v: &Option<String>)
    ensures
        pairs_view(final(out)@) == pairs_view(old(out)@) + detail_entry(label@, *v),
{
    let value = clean_field(v);
    let ghost before = out@;
    if value.unicode_len() > 0 {
        out.push((String::from_str(label), String::from_str(value)));
        assert(pairs_view(out@) =~= pairs_view(before) + detail_entry(label@, *v));
    } else {
        assert(pairs_view(out@) =~= pairs_view(before) + detail_entry(label@, *v));
    }
}

fn push_search_piece(out: &mut String, v: &Option<String>)
    ensures
        final(out)@ == old(out)@ + search_piece(*v),
{
    match v {
        Some(s) => {
            let lowered = lowercase(s.as_str());
            out.append(lowered.as_str());
            proof {
                reveal_strlit(" ");
            }
            out.append(" ");
            assert(" "@ =~= seq![' ']);
        },
        None => {
            assert(out@ =~= out@ + Seq::<char>::empty());
        },
    }
}

impl TimelineEvent {
    /// The event time as read by the absolute parser.
    pub open spec fn time_spec(self) -> Option<Timestamp> {
        match self.event_time {
            Some(s) => parsed_time(s@),
            None => None,
        }
    }

    /// The name shown in the list line: the file name, else the initiating
    /// process's file name, else the computer name, each counted only when
    /// its cleaned value is not empty.
    pub open spec fn display_name(self) -> Seq<char> {
        if clean_opt(self.file_name).len() > 0 {
            clean_opt(self.file_name)
        } else if clean_opt(self.initiating_process_file_name).len() > 0 {
            clean_opt(self.initiating_process_file_name)
        } else {
            clean_opt(self.computer_name)
        }
    }

    /// `time | action | name`, with an em dash for a missing action type.
    pub open spec fn list_line_spec(self) -> Seq<char> {
        let action = match self.action_type {
            Some(a) => a@,
            None => "\u{2014}"@,
        };
        clean_opt(self.event_time) + " | "@ + action + " | "@ + self.display_name()
    }

    /// Every field with a non-empty cleaned value, labelled, in schema order.
    #[verifier::opaque]
    pub open spec fn detail_spec(self) -> Seq<(Seq<char>, Seq<char>)> {
        Seq::empty()
            + detail_entry("Event Time"@, self.event_time)
            + detail_entry("Machine Id"@, self.machine_id)
            + detail_entry("Computer Name"@, self.computer_name)
            + detail_entry("Action Type"@, self.action_type)
            + detail_entry("File Name"@, self.file_name)
            + detail_entry("Folder Path"@, self.folder_path)
            + detail_entry("Sha1"@, self.sha1)
            + detail_entry("Sha256"@, self.sha256)
            + detail_entry("MD5"@, self.md5)
            + detail_entry("Process Command Line"@, self.process_command_line)
            + detail_entry("Account Domain"@, self.account_domain)
            + detail_entry("Account Name"@, self.account_name)
            + detail_entry("Account Sid"@, self.account_sid)
            + detail_entry("Logon Id"@, self.logon_id)
            + detail_entry("Process Id"@, self.process_id)
            + detail_entry("Process Creation Time"@, self.process_creation_time)
            + detail_entry("Process Token Elevation"@, self.process_token_elevation)
            + detail_entry("Registry Key"@, self.registry_key)
            + detail_entry("Registry Value Name"@, self.registry_value_name)
            + detail_entry("Registry Value Data"@, self.registry_value_data)
            + detail_entry("Remote Url"@, self.remote_url)
            + detail_entry("Remote Computer Name"@, self.remote_computer_name)
            + detail_entry("Remote IP"@, self.remote_ip)
            + detail_entry("Remote Port"@, self.remote_port)
            + detail_entry("Local IP"@, self.local_ip)
            + detail_entry("Local Port"@, self.local_port)
            + detail_entry("File Origin Url"@, self.file_origin_url)
            + detail_entry("File Origin IP"@, self.file_origin_ip)
            + detail_entry("Initiating Process SHA1"@, self.initiating_process_sha1)
            + detail_entry("Initiating Process SHA256"@, self.initiating_process_sha256)
            + detail_entry("Initiating Process File Name"@, self.initiating_process_file_name)
            + detail_entry("Initiating Process Folder Path"@, self.initiating_process_folder_path)
            + detail_entry("Initiating Process Id"@, self.initiating_process_id)
            + detail_entry("Initiating Process Command Line"@, self.initiating_process_command_line)
            + detail_entry("Initiating Process Creation Time"@, self.initiating_process_creation_time)
            + detail_entry("Initiating Process Integrity Level"@, self.initiating_process_integrity_level)
            + detail_entry("Initiating Process Token Elevation"@, self.initiating_process_token_elevation)
            + detail_entry("Initiating Process Parent Id"@, self.initiating_process_parent_id)
            + detail_entry("Initiating Process Parent File Name"@, self.initiating_process_parent_file_name)
            + detail_entry("Initiating Process Parent Creation Time"@, self.initiating_process_parent_creation_time)
            + detail_entry("Initiating Process MD5"@, self.initiating_process_md5)
            + detail_entry("Initiating Process Account Domain"@, self.initiating_process_account_domain)
            + detail_entry("Initiating Process Account Name"@, self.initiating_process_account_name)
            + detail_entry("Initiating Process Account Sid"@, self.initiating_process_account_sid)
            + detail_entry("Initiating Process Logon Id"@, self.initiating_process_logon_id)
            + detail_entry("Report Id"@, self.report_id)
            + detail_entry("Additional Fields"@, self.additional_fields)
            + detail_entry("Typed Details"@, self.typed_details)
            + detail_entry("App Guard Container Id"@, self.app_guard_container_id)
            + detail_entry("Protocol"@, self.protocol)
            + detail_entry("Logon Type"@, self.logon_type)
            + detail_entry("Process Integrity Level"@, self.process_integrity_level)
            + detail_entry("Registry Value Type"@, self.registry_value_type)
            + detail_entry("Previous Registry Value Name"@, self.previous_registry_value_name)
            + detail_entry("Previous Registry Value Data"@, self.previous_registry_value_data)
            + detail_entry("Previous Registry Key"@, self.previous_registry_key)
            + detail_entry("File Origin Referrer Url"@, self.file_origin_referrer_url)
            + detail_entry("Sensitivity Label"@, self.sensitivity_label)
            + detail_entry("Sensitivity Sub Label"@, self.sensitivity_sub_label)
            + detail_entry("Is Endpoint Dlp Applied"@, self.is_endpoint_dlp_applied)
            + detail_entry("Is Azure Info Protection Applied"@, self.is_azure_info_protection_applied)
            + detail_entry("Alert Ids"@, self.alert_ids)
            + detail_entry("Categories"@, self.categories)
            + detail_entry("Severities"@, self.severities)
            + detail_entry("Is Marked"@, self.is_marked)
            + detail_entry("Data Type"@, self.data_type)
    }

    /// The lowercase text that search looks in: the searchable fields in
    /// order, each followed by a space.
    pub open spec fn search_text(self) -> Seq<char> {
        Seq::empty()
            + search_piece(self.event_time)
            + search_piece(self.machine_id)
            + search_piece(self.computer_name)
            + search_piece(self.action_type)
            + search_piece(self.file_name)
            + search_piece(self.folder_path)
            + search_piece(self.sha1)
            + search_piece(self.sha256)
            + search_piece(self.md5)
            + search_piece(self.process_command_line)
            + search_piece(self.account_domain)
            + search_piece(self.account_name)
            + search_piece(self.account_sid)
            + search_piece(self.process_id)
            + search_piece(self.process_creation_time)
            + search_piece(self.registry_key)
            + search_piece(self.registry_value_name)
            + search_piece(self.registry_value_data)
            + search_piece(self.remote_url)
            + search_piece(self.remote_computer_name)
            + search_piece(self.remote_ip)
            + search_piece(self.remote_port)
            + search_piece(self.local_ip)
            + search_piece(self.local_port)
            + search_piece(self.file_origin_url)
            + search_piece(self.file_origin_ip)
            + search_piece(self.initiating_process_sha1)
            + search_piece(self.initiating_process_sha256)
            + search_piece(self.initiating_process_file_name)
            + search_piece(self.initiating_process_folder_path)
            + search_piece(self.initiating_process_id)
            + search_piece(self.initiating_process_command_line)
            + search_piece(self.initiating_process_creation_time)
            + search_piece(self.initiating_process_parent_file_name)
            + search_piece(self.initiating_process_account_domain)
            + search_piece(self.initiating_process_account_name)
            + search_piece(self.report_id)
            + search_piece(self.additional_fields)
            + search_piece(self.typed_details)
            + search_piece(self.protocol)
            + search_piece(self.alert_ids)
            + search_piece(self.categories)
            + search_piece(self.severities)
            + search_piece(self.data_type)
    }

    /// Whether the event matches a search string: a blank string matches
    /// everything; otherwise every whitespace-separated word of the trimmed,
    /// lowercased string is a substring of the search text.
    pub open spec fn search_matches(self, needle: Seq<char>) -> bool {
        trim(needle).len() == 0 || all_words_occur(lower_of(trim(needle)), self.search_text())
    }

    /// Whether the event's time lies within the inclusive bounds.
    pub open spec fn time_within(self, start: Option<Timestamp>, end: Option<Timestamp>) -> bool {
        within(self.time_spec(), start, end)
    }

    /// The event time, parsed.
    pub fn event_time_parsed(&self) -> (r: Option<Timestamp>)
        ensures
            r == self.time_spec(),
            r matches Some(t) ==> t.wf(),
    {
        match &self.event_time {
            Some(s) => parse_time(s.as_str()),
            None => None,
        }
    }

    /// Whether the event time falls within `[start, end]`; an absent bound
    /// leaves that side open, and an event without a readable time passes only
    /// when both bounds are absent.
    pub fn in_time_range(&self, start: Option<Timestamp>, end: Option<Timestamp>) -> (r: bool)
        ensures
            r == self.time_within(start, end),
    {
        let t = match self.event_time_parsed() {
            Some(t) => t,
            None => return start.is_none() && end.is_none(),
        };
        if let Some(s) = start {
            if t.is_before(&s) {
                return false;
            }
        }
        if let Some(e) = end {
            if e.is_before(&t) {
                return false;
            }
        }
        true
    }

    /// The name shown in the list line.
    fn display_name_str(&self) -> (r: &str)
        ensures
            r@ == self.display_name(),
    {
        let file = clean_field(&self.file_name);
        if file.unicode_len() > 0 {
            return file;
        }
        let process = clean_field(&self.initiating_process_file_name);
        if process.unicode_len() > 0 {
            return process;
        }
        clean_field(&self.computer_name)
    }

    /// One-line summary for the list: `time | action | name`.
    pub fn list_line(&self) -> (r: String)
        ensures
            r@ == self.list_line_spec(),
    {
        let mut out = String::from_str(clean_field(&self.event_time));
        out.append(" | ");
        match &self.action_type {
            Some(a) => out.append(a.as_str()),
            None => out.append("\u{2014}"),
        }
        out.append(" | ");
        out.append(self.display_name_str());
        out
    }

    /// Every field with a non-empty value, as (label, value) pairs in schema
    /// order; values lose surrounding quotes and whitespace.
    pub fn detail_lines(&self) -> (r: Vec<(String, String)>)
        ensures
            pairs_view(r@) == self.detail_spec(),
    {
        proof {
            reveal(TimelineEvent::detail_spec);
        }
        let mut out: Vec<(String, String)> = Vec::new();
        assert(pairs_view(out@) =~= Seq::empty());
        push_detail(&mut out, "Event Time", &self.event_time);
        push_detail(&mut out, "Machine Id", &self.machine_id);
        push_detail(&mut out, "Computer Name", &self.computer_name);
        push_detail(&mut out, "Action Type", &self.action_type);
        push_detail(&mut out, "File Name", &self.file_name);
        push_detail(&mut out, "Folder Path", &self.folder_path);
        push_detail(&mut out, "Sha1", &self.sha1);
        push_detail(&mut out, "Sha256", &self.sha256);
        push_detail(&mut out, "MD5", &self.md5);
        push_detail(&mut out, "Process Command Line", &self.process_command_line);
        push_detail(&mut out, "Account Domain", &self.account_domain);
        push_detail(&mut out, "Account Name", &self.account_name);
        push_detail(&mut out, "Account Sid", &self.account_sid);
        push_detail(&mut out, "Logon Id", &self.logon_id);
        push_detail(&mut out, "Process Id", &self.process_id);
        push_detail(&mut out, "Process Creation Time", &self.process_creation_time);
        push_detail(&mut out, "Process Token Elevation", &self.process_token_elevation);
        push_detail(&mut out, "Registry Key", &self.registry_key);
        push_detail(&mut out, "Registry Value Name", &self.registry_value_name);
        push_detail(&mut out, "Registry Value Data", &self.registry_value_data);
        push_detail(&mut out, "Remote Url", &self.remote_url);
        push_detail(&mut out, "Remote Computer Name", &self.remote_computer_name);
        push_detail(&mut out, "Remote IP", &self.remote_ip);
        push_detail(&mut out, "Remote Port", &self.remote_port);
        push_detail(&mut out, "Local IP", &self.local_ip);
        push_detail(&mut out, "Local Port", &self.local_port);
        push_detail(&mut out, "File Origin Url", &self.file_origin_url);
        push_detail(&mut out, "File Origin IP", &self.file_origin_ip);
        push_detail(&mut out, "Initiating Process SHA1", &self.initiating_process_sha1);
        push_detail(&mut out, "Initiating Process SHA256", &self.initiating_process_sha256);
        push_detail(&mut out, "Initiating Process File Name", &self.initiating_process_file_name);
        push_detail(&mut out, "Initiating Process Folder Path", &self.initiating_process_folder_path);
        push_detail(&mut out, "Initiating Process Id", &self.initiating_process_id);
        push_detail(&mut out, "Initiating Process Command Line", &self.initiating_process_command_line);
        push_detail(&mut out, "Initiating Process Creation Time", &self.initiating_process_creation_time);
        push_detail(&mut out, "Initiating Process Integrity Level", &self.initiating_process_integrity_level);
        push_detail(&mut out, "Initiating Process Token Elevation", &self.initiating_process_token_elevation);
        push_detail(&mut out, "Initiating Process Parent Id", &self.initiating_process_parent_id);
        push_detail(&mut out, "Initiating Process Parent File Name", &self.initiating_process_parent_file_name);
        push_detail(&mut out, "Initiating Process Parent Creation Time", &self.initiating_process_parent_creation_time);
        push_detail(&mut out, "Initiating Process MD5", &self.initiating_process_md5);
        push_detail(&mut out, "Initiating Process Account Domain", &self.initiating_process_account_domain);
        push_detail(&mut out, "Initiating Process Account Name", &self.initiating_process_account_name);
        push_detail(&mut out, "Initiating Process Account Sid", &self.initiating_process_account_sid);
        push_detail(&mut out, "Initiating Process Logon Id", &self.initiating_process_logon_id);
        push_detail(&mut out, "Report Id", &self.report_id);
        push_detail(&mut out, "Additional Fields", &self.additional_fields);
        push_detail(&mut out, "Typed Details", &self.typed_details);
        push_detail(&mut out, "App Guard Container Id", &self.app_guard_container_id);
        push_detail(&mut out, "Protocol", &self.protocol);
        push_detail(&mut out, "Logon Type", &self.logon_type);
        push_detail(&mut out, "Process Integrity Level", &self.process_integrity_level);
        push_detail(&mut out, "Registry Value Type", &self.registry_value_type);
        push_detail(&mut out, "Previous Registry Value Name", &self.previous_registry_value_name);
        push_detail(&mut out, "Previous Registry Value Data", &self.previous_registry_value_data);
        push_detail(&mut out, "Previous Registry Key", &self.previous_registry_key);
        push_detail(&mut out, "File Origin Referrer Url", &self.file_origin_referrer_url);
        push_detail(&mut out, "Sensitivity Label", &self.sensitivity_label);
        push_detail(&mut out, "Sensitivity Sub Label", &self.sensitivity_sub_label);
        push_detail(&mut out, "Is Endpoint Dlp Applied", &self.is_endpoint_dlp_applied);
        push_detail(&mut out, "Is Azure Info Protection Applied", &self.is_azure_info_protection_applied);
        push_detail(&mut out, "Alert Ids", &self.alert_ids);
        push_detail(&mut out, "Categories", &self.categories);
        push_detail(&mut out, "Severities", &self.severities);
        push_detail(&mut out, "Is Marked", &self.is_marked);
        push_detail(&mut out, "Data Type", &self.data_type);
        out
    }

    /// The lowercase search text of the event.
    pub fn searchable_text(&self) -> (r: String)
        ensures
            r@ == self.search_text(),
    {
        let mut out = String::new();
        push_search_piece(&mut out, &self.event_time);
        push_search_piece(&mut out, &self.machine_id);
        push_search_piece(&mut out, &self.computer_name);
        push_search_piece(&mut out, &self.action_type);
        push_search_piece(&mut out, &self.file_name);
        push_search_piece(&mut out, &self.folder_path);
        push_search_piece(&mut out, &self.sha1);
        push_search_piece(&mut out, &self.sha256);
        push_search_piece(&mut out, &self.md5);
        push_search_piece(&mut out, &self.process_command_line);
        push_search_piece(&mut out, &self.account_domain);
        push_search_piece(&mut out, &self.account_name);
        push_search_piece(&mut out, &self.account_sid);
        push_search_piece(&mut out, &self.process_id);
        push_search_piece(&mut out, &self.process_creation_time);
        push_search_piece(&mut out, &self.registry_key);
        push_search_piece(&mut out, &self.registry_value_name);
        push_search_piece(&mut out, &self.registry_value_data);
        push_search_piece(&mut out, &self.remote_url);
        push_search_piece(&mut out, &self.remote_computer_name);
        push_search_piece(&mut out, &self.remote_ip);
        push_search_piece(&mut out, &self.remote_port);
        push_search_piece(&mut out, &self.local_ip);
        push_search_piece(&mut out, &self.local_port);
        push_search_piece(&mut out, &self.file_origin_url);
        push_search_piece(&mut out, &self.file_origin_ip);
        push_search_piece(&mut out, &self.initiating_process_sha1);
        push_search_piece(&mut out, &self.initiating_process_sha256);
        push_search_piece(&mut out, &self.initiating_process_file_name);
        push_search_piece(&mut out, &self.initiating_process_folder_path);
        push_search_piece(&mut out, &self.initiating_process_id);
        push_search_piece(&mut out, &self.initiating_process_command_line);
        push_search_piece(&mut out, &self.initiating_process_creation_time);
        push_search_piece(&mut out, &self.initiating_process_parent_file_name);
        push_search_piece(&mut out, &self.initiating_process_account_domain);
        push_search_piece(&mut out, &self.initiating_process_account_name);
        push_search_piece(&mut out, &self.report_id);
        push_search_piece(&mut out, &self.additional_fields);
        push_search_piece(&mut out, &self.typed_details);
        push_search_piece(&mut out, &self.protocol);
        push_search_piece(&mut out, &self.alert_ids);
        push_search_piece(&mut out, &self.categories);
        push_search_piece(&mut out, &self.severities);
        push_search_piece(&mut out, &self.data_type);
        out
    }

    /// Whether the event matches `needle`: blank matches all; otherwise each
    /// whitespace-separated word, compared without case, must appear somewhere
    /// in the searchable fields.
    pub fn matches_search(&self, needle: &str) -> (r: bool)
        ensures
            r == self.search_matches(needle@),
    {
        let t = trim_str(needle, Trim::Space);
        if t.unicode_len() == 0 {
            return true;
        }
        let hay = self.searchable_text();
        let lowered = lowercase(t);
        matches_lowered(lowered.as_str(), hay.as_str())
    }
}

/// Whether every whitespace-separated word of an already-lowercased search
/// string occurs in an already-lowercased search text.
pub fn matches_lowered(needle: &str, text: &str) -> (r: bool)
    ensures
        r == all_words_occur(needle@, text@),
{
    let nv = chars_of(needle);
    let hv = chars_of(text);
    words_occur(&nv, &hv)
}

/// The time predicate case by case: an event with a readable time `t`
/// passes when `start <= t` (if a start is set) and `t <= end` (if an end is
/// set); an event without one passes only when neither bound is set.
pub proof fn lemma_time_range_cases(ev: TimelineEvent, start: Option<Timestamp>, end: Option<Timestamp>)
    ensures
        ev.time_spec() is None ==> (ev.time_within(start, end) <==> start is None && end is None),
        ev.time_spec() matches Some(t) ==> (ev.time_within(start, end) <==> (start matches Some(s)
            ==> s.le(t)) && (end matches Some(e) ==> t.le(e))),
        ev.time_spec() is Some && start is None && end is None ==> ev.time_within(start, end),
{
}

/// A blank search string matches every event.
pub proof fn lemma_blank_search_matches(ev: TimelineEvent, needle: Seq<char>)
    requires
        forall|i: int| 0 <= i < needle.len() ==> crate::text::is_white(#[trigger] needle[i]),
    ensures
        ev.search_matches(needle),
{
    crate::text::lemma_all_white_trims_empty(needle);
}

} // verus!

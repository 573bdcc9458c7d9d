//! The proxy's configuration: its model, its defaults and the reading of
//! the main configuration file's directives.

use vstd::prelude::*;
use crate::text::{
    trim, words, split_char, find_char, rfind_char, parse_unsigned, decimal, str_views, eq_ic,
    chars_of, trim_vec, words_exec, views, find_char_exec, rfind_char_exec, slice_chars,
    from_chars, push_str, push_chars, parse_u16, seq_eq, seq_eq_ic, str_eq, own, sub_string,
    split_char_exec, parse_u8, parse_u32, parse_u64, parse_usize,
};
use crate::http::opt_view;
use crate::bindings::{path_absolute, path_joined, path_parent};
use crate::constants::{CONNECTION_TIMEOUT_SECS, KEEP_ALIVE_TIMEOUT_SECS, MAX_CONNECTIONS, HOME_PAGE_URL};
use crate::error::{PrivoxyError, PrivoxyResult};
use crate::errlog::{
    LOG_LEVEL_REQUEST, LOG_LEVEL_CONNECT, LOG_LEVEL_TAGGING, LOG_LEVEL_HEADER, LOG_LEVEL_WRITING,
    LOG_LEVEL_FORCE, LOG_LEVEL_RE_FILTER, LOG_LEVEL_REDIRECTS, LOG_LEVEL_DEANIMATE,
    LOG_LEVEL_CLF, LOG_LEVEL_CRUNCH, LOG_LEVEL_CGI, LOG_LEVEL_INFO, LOG_LEVEL_ERROR,
    LOG_LEVEL_FATAL, LOG_LEVEL_RECEIVED,
};

verus! {

/// An address and port to listen on.
#[derive(Debug, Clone)]
pub struct ListenAddress {
    pub addr: String,
    pub port: u16,
}

impl Default for ListenAddress {
    fn default() -> (r: Self)
        ensures
            r.addr@ == "127.0.0.1"@ && r.port == 8118,
    {
        ListenAddress { addr: "127.0.0.1".to_string(), port: 8118 }
    }
}

pub open spec fn listen_view(v: Seq<ListenAddress>) -> Seq<(Seq<char>, u16)> {
    v.map_values(|a: ListenAddress| (a.addr@, a.port))
}

/// How requests matching a pattern are forwarded.
#[derive(Debug, Clone, Copy, PartialEq, Eq, Structural)]
pub enum ForwardType {
    Direct,
    Socks4,
    Socks4a,
    Socks5,
    /// SOCKS5 with Tor's optimistic data extension.
    Socks5t,
    Http,
    /// Straight to the web server, without the full URL in the request line.
    ForwardWebserver,
}

impl Default for ForwardType {
    fn default() -> (r: Self)
        ensures
            r == ForwardType::Direct,
    {
        ForwardType::Direct
    }
}

/// Where requests for hosts matching `pattern` go.
#[derive(Debug, Clone)]
pub struct ForwardSpec {
    pub pattern: String,
    pub forward_type: ForwardType,
    pub gateway_host: Option<String>,
    pub gateway_port: u16,
    pub gateway_username: Option<String>,
    pub gateway_password: Option<String>,
    pub forward_host: Option<String>,
    pub forward_port: u16,
}

pub struct ForwardSpecModel {
    pub pattern: Seq<char>,
    pub forward_type: ForwardType,
    pub gateway_host: Option<Seq<char>>,
    pub gateway_port: u16,
    pub gateway_username: Option<Seq<char>>,
    pub gateway_password: Option<Seq<char>>,
    pub forward_host: Option<Seq<char>>,
    pub forward_port: u16,
}

impl View for ForwardSpec {
    type V = ForwardSpecModel;

    open spec fn view(&self) -> ForwardSpecModel {
        ForwardSpecModel {
            pattern: self.pattern@,
            forward_type: self.forward_type,
            gateway_host: opt_view(self.gateway_host),
            gateway_port: self.gateway_port,
            gateway_username: opt_view(self.gateway_username),
            gateway_password: opt_view(self.gateway_password),
            forward_host: opt_view(self.forward_host),
            forward_port: self.forward_port,
        }
    }
}

pub open spec fn forward_view(v: Seq<ForwardSpec>) -> Seq<ForwardSpecModel> {
    v.map_values(|f: ForwardSpec| f@)
}

/// A tag that clients can turn on for themselves.
#[derive(Debug, Clone)]
pub struct ClientSpecificTag {
    pub name: String,
    pub description: String,
}

pub open spec fn tag_view(v: Seq<ClientSpecificTag>) -> Seq<(Seq<char>, Seq<char>)> {
    v.map_values(|t: ClientSpecificTag| (t.name@, t.description@))
}

/// Optional features switched in the configuration.
#[derive(Debug, Clone, Copy)]
pub struct FeatureFlags {
    pub enable_compression: bool,
}

impl Default for FeatureFlags {
    fn default() -> (r: Self)
        ensures
            r.enable_compression,
    {
        FeatureFlags { enable_compression: true }
    }
}

/// When a watched file was last modified, in milliseconds since the epoch.
#[derive(Debug, Clone)]
pub struct FileModification {
    pub path: String,
    pub modified_millis: u128,
}

/// What one URL pattern's actions turn on or off.
#[derive(Debug, Clone)]
pub struct Action {
    pub name: String,
    pub enabled: bool,
    pub block: bool,
    pub block_reason: Option<String>,
    pub redirect: Option<String>,
    pub filter: bool,
    pub filter_names: Vec<String>,
    pub client_body_filter_names: Vec<String>,
    pub client_header_filter_names: Vec<String>,
    pub server_header_filter_names: Vec<String>,
    pub client_header_tagger_names: Vec<String>,
    pub server_header_tagger_names: Vec<String>,
    pub client_body_tagger_names: Vec<String>,
    pub tags: Vec<String>,
    pub suppress_tags: Vec<String>,
    pub handle_as_empty_document: bool,
    pub handle_as_image: bool,
    pub limit_connect: Option<String>,
    pub limit_connect_retries: Option<u32>,
    pub fast_redirects: Option<String>,
    pub force_text_mode: bool,
    pub hide_accept_language: Option<String>,
    pub hide_content_disposition: Option<String>,
    pub hide_from_header: Option<String>,
    pub hide_if_modified_since: Option<String>,
    pub hide_referrer: Option<String>,
    pub hide_user_agent: Option<String>,
    pub inspect_jpegs: bool,
    pub kill_popups: bool,
    pub limit_cookie_lifetime: Option<u64>,
    pub overwrite_last_modified: Option<String>,
    pub prevent_compression: bool,
    pub send_wafer: Option<String>,
    pub send_user_agent: Option<String>,
    pub session_cookies_only: bool,
    pub set_image_blocker: Option<String>,
    pub add_headers: Vec<String>,
    pub crunch_client_headers: Vec<String>,
    pub crunch_server_headers: Vec<String>,
    pub crunch_incoming_cookies: bool,
    pub crunch_outgoing_cookies: bool,
    pub crunch_if_none_match: bool,
    pub deanimate_gifs: Option<String>,
    pub downgrade_http_version: bool,
    pub content_type_overwrite: Option<String>,
    pub change_x_forwarded_for: Option<String>,
    pub delay_response: Option<u64>,
    pub forward_override: Option<String>,
    pub https_inspection: bool,
    pub ignore_certificate_errors: bool,
}

/// The names of a list, each by its view.  Outside this module the
/// definition is reached through `lemma_names_of`.
pub closed spec fn names_of(v: Vec<String>) -> Seq<Seq<char>> {
    str_views(v@)
}

pub proof fn lemma_names_of(v: Vec<String>)
    ensures
        names_of(v) == str_views(v@),
{
}

/// The model of an `Action`: each field by its view.
pub struct ActionModel {
    pub name: Seq<char>,
    pub enabled: bool,
    pub block: bool,
    pub block_reason: Option<Seq<char>>,
    pub redirect: Option<Seq<char>>,
    pub filter: bool,
    pub filter_names: Seq<Seq<char>>,
    pub client_body_filter_names: Seq<Seq<char>>,
    pub client_header_filter_names: Seq<Seq<char>>,
    pub server_header_filter_names: Seq<Seq<char>>,
    pub client_header_tagger_names: Seq<Seq<char>>,
    pub server_header_tagger_names: Seq<Seq<char>>,
    pub client_body_tagger_names: Seq<Seq<char>>,
    pub tags: Seq<Seq<char>>,
    pub suppress_tags: Seq<Seq<char>>,
    pub handle_as_empty_document: bool,
    pub handle_as_image: bool,
    pub limit_connect: Option<Seq<char>>,
    pub limit_connect_retries: Option<u32>,
    pub fast_redirects: Option<Seq<char>>,
    pub force_text_mode: bool,
    pub hide_accept_language: Option<Seq<char>>,
    pub hide_content_disposition: Option<Seq<char>>,
    pub hide_from_header: Option<Seq<char>>,
    pub hide_if_modified_since: Option<Seq<char>>,
    pub hide_referrer: Option<Seq<char>>,
    pub hide_user_agent: Option<Seq<char>>,
    pub inspect_jpegs: bool,
    pub kill_popups: bool,
    pub limit_cookie_lifetime: Option<u64>,
    pub overwrite_last_modified: Option<Seq<char>>,
    pub prevent_compression: bool,
    pub send_wafer: Option<Seq<char>>,
    pub send_user_agent: Option<Seq<char>>,
    pub session_cookies_only: bool,
    pub set_image_blocker: Option<Seq<char>>,
    pub add_headers: Seq<Seq<char>>,
    pub crunch_client_headers: Seq<Seq<char>>,
    pub crunch_server_headers: Seq<Seq<char>>,
    pub crunch_incoming_cookies: bool,
    pub crunch_outgoing_cookies: bool,
    pub crunch_if_none_match: bool,
    pub deanimate_gifs: Option<Seq<char>>,
    pub downgrade_http_version: bool,
    pub content_type_overwrite: Option<Seq<char>>,
    pub change_x_forwarded_for: Option<Seq<char>>,
    pub delay_response: Option<u64>,
    pub forward_override: Option<Seq<char>>,
    pub https_inspection: bool,
    pub ignore_certificate_errors: bool,
}

impl View for Action {
    type V = ActionModel;

    open spec fn view(&self) -> ActionModel {
        ActionModel {
            name: self.name@,
            enabled: self.enabled,
            block: self.block,
            block_reason: opt_view(self.block_reason),
            redirect: opt_view(self.redirect),
            filter: self.filter,
            filter_names: names_of(self.filter_names),
            client_body_filter_names: names_of(self.client_body_filter_names),
            client_header_filter_names: names_of(self.client_header_filter_names),
            server_header_filter_names: names_of(self.server_header_filter_names),
            client_header_tagger_names: names_of(self.client_header_tagger_names),
            server_header_tagger_names: names_of(self.server_header_tagger_names),
            client_body_tagger_names: names_of(self.client_body_tagger_names),
            tags: names_of(self.tags),
            suppress_tags: names_of(self.suppress_tags),
            handle_as_empty_document: self.handle_as_empty_document,
            handle_as_image: self.handle_as_image,
            limit_connect: opt_view(self.limit_connect),
            limit_connect_retries: self.limit_connect_retries,
            fast_redirects: opt_view(self.fast_redirects),
            force_text_mode: self.force_text_mode,
            hide_accept_language: opt_view(self.hide_accept_language),
            hide_content_disposition: opt_view(self.hide_content_disposition),
            hide_from_header: opt_view(self.hide_from_header),
            hide_if_modified_since: opt_view(self.hide_if_modified_since),
            hide_referrer: opt_view(self.hide_referrer),
            hide_user_agent: opt_view(self.hide_user_agent),
            inspect_jpegs: self.inspect_jpegs,
            kill_popups: self.kill_popups,
            limit_cookie_lifetime: self.limit_cookie_lifetime,
            overwrite_last_modified: opt_view(self.overwrite_last_modified),
            prevent_compression: self.prevent_compression,
            send_wafer: opt_view(self.send_wafer),
            send_user_agent: opt_view(self.send_user_agent),
            session_cookies_only: self.session_cookies_only,
            set_image_blocker: opt_view(self.set_image_blocker),
            add_headers: names_of(self.add_headers),
            crunch_client_headers: names_of(self.crunch_client_headers),
            crunch_server_headers: names_of(self.crunch_server_headers),
            crunch_incoming_cookies: self.crunch_incoming_cookies,
            crunch_outgoing_cookies: self.crunch_outgoing_cookies,
            crunch_if_none_match: self.crunch_if_none_match,
            deanimate_gifs: opt_view(self.deanimate_gifs),
            downgrade_http_version: self.downgrade_http_version,
            content_type_overwrite: opt_view(self.content_type_overwrite),
            change_x_forwarded_for: opt_view(self.change_x_forwarded_for),
            delay_response: self.delay_response,
            forward_override: opt_view(self.forward_override),
            https_inspection: self.https_inspection,
            ignore_certificate_errors: self.ignore_certificate_errors,
        }
    }
}

/// The actions in force before any action text is read.
pub open spec fn default_action() -> ActionModel {
    ActionModel {
        name: Seq::empty(),
        enabled: true,
        block: false,
        block_reason: None,
        redirect: None,
        filter: false,
        filter_names: Seq::empty(),
        client_body_filter_names: Seq::empty(),
        client_header_filter_names: Seq::empty(),
        server_header_filter_names: Seq::empty(),
        client_header_tagger_names: Seq::empty(),
        server_header_tagger_names: Seq::empty(),
        client_body_tagger_names: Seq::empty(),
        tags: Seq::empty(),
        suppress_tags: Seq::empty(),
        handle_as_empty_document: false,
        handle_as_image: false,
        limit_connect: None,
        limit_connect_retries: None,
        fast_redirects: None,
        force_text_mode: false,
        hide_accept_language: None,
        hide_content_disposition: None,
        hide_from_header: None,
        hide_if_modified_since: None,
        hide_referrer: None,
        hide_user_agent: None,
        inspect_jpegs: false,
        kill_popups: false,
        limit_cookie_lifetime: None,
        overwrite_last_modified: None,
        prevent_compression: false,
        send_wafer: None,
        send_user_agent: None,
        session_cookies_only: false,
        set_image_blocker: None,
        add_headers: Seq::empty(),
        crunch_client_headers: Seq::empty(),
        crunch_server_headers: Seq::empty(),
        crunch_incoming_cookies: false,
        crunch_outgoing_cookies: false,
        crunch_if_none_match: false,
        deanimate_gifs: None,
        downgrade_http_version: false,
        content_type_overwrite: None,
        change_x_forwarded_for: None,
        delay_response: None,
        forward_override: None,
        https_inspection: false,
        ignore_certificate_errors: false,
    }
}

impl Default for Action {
    fn default() -> (r: Self)
        ensures
            r@ == default_action(),
    {
        let r = Action {
            name: String::new(),
            enabled: true,
            block: false,
            block_reason: None,
            redirect: None,
            filter: false,
            filter_names: Vec::new(),
            client_body_filter_names: Vec::new(),
            client_header_filter_names: Vec::new(),
            server_header_filter_names: Vec::new(),
            client_header_tagger_names: Vec::new(),
            server_header_tagger_names: Vec::new(),
            client_body_tagger_names: Vec::new(),
            tags: Vec::new(),
            suppress_tags: Vec::new(),
            handle_as_empty_document: false,
            handle_as_image: false,
            limit_connect: None,
            limit_connect_retries: None,
            fast_redirects: None,
            force_text_mode: false,
            hide_accept_language: None,
            hide_content_disposition: None,
            hide_from_header: None,
            hide_if_modified_since: None,
            hide_referrer: None,
            hide_user_agent: None,
            inspect_jpegs: false,
            kill_popups: false,
            limit_cookie_lifetime: None,
            overwrite_last_modified: None,
            prevent_compression: false,
            send_wafer: None,
            send_user_agent: None,
            session_cookies_only: false,
            set_image_blocker: None,
            add_headers: Vec::new(),
            crunch_client_headers: Vec::new(),
            crunch_server_headers: Vec::new(),
            crunch_incoming_cookies: false,
            crunch_outgoing_cookies: false,
            crunch_if_none_match: false,
            deanimate_gifs: None,
            downgrade_http_version: false,
            content_type_overwrite: None,
            change_x_forwarded_for: None,
            delay_response: None,
            forward_override: None,
            https_inspection: false,
            ignore_certificate_errors: false,
        };

        assert(str_views(r.filter_names@) =~= Seq::<Seq<char>>::empty());
        assert(str_views(r.client_body_filter_names@) =~= Seq::<Seq<char>>::empty());
        assert(str_views(r.client_header_filter_names@) =~= Seq::<Seq<char>>::empty());
        assert(str_views(r.server_header_filter_names@) =~= Seq::<Seq<char>>::empty());
        assert(str_views(r.client_header_tagger_names@) =~= Seq::<Seq<char>>::empty());
        assert(str_views(r.server_header_tagger_names@) =~= Seq::<Seq<char>>::empty());
        assert(str_views(r.client_body_tagger_names@) =~= Seq::<Seq<char>>::empty());
        assert(str_views(r.tags@) =~= Seq::<Seq<char>>::empty());
        assert(str_views(r.suppress_tags@) =~= Seq::<Seq<char>>::empty());
        assert(str_views(r.add_headers@) =~= Seq::<Seq<char>>::empty());
        assert(str_views(r.crunch_client_headers@) =~= Seq::<Seq<char>>::empty());
        assert(str_views(r.crunch_server_headers@) =~= Seq::<Seq<char>>::empty());
        r
    }
}


/// URL patterns and the actions that apply to them.
#[derive(Debug, Clone)]
pub struct UrlAction {
    pub patterns: Vec<String>,
    pub action: Action,
    /// The actions file and line the entry came from.
    pub file_name: String,
    pub line_number: usize,
}

/// A content substitution configured by pattern and replacement text.
#[derive(Debug, Clone)]
pub struct FilterRule {
    pub pattern: String,
    pub replacement: String,
    pub enabled: bool,
}

/// The whole configuration.
#[derive(Debug, Clone)]
pub struct Config {
    pub listen_addresses: Vec<ListenAddress>,
    pub forward_specs: Vec<ForwardSpec>,
    pub actions: Vec<Action>,
    pub url_actions: Vec<UrlAction>,
    pub filter_rules: Vec<FilterRule>,
    pub log_file: Option<String>,
    pub log_level: u32,
    pub toggle: bool,
    pub enable_remote_toggle: bool,
    pub enable_edit_actions: bool,
    pub buffer_limit: usize,
    pub connection_timeout_secs: u64,
    pub keep_alive_timeout_secs: u64,
    pub max_client_connections: usize,
    pub trust_files: Vec<String>,
    pub actions_files: Vec<String>,
    pub filter_files: Vec<String>,
    pub permit_access: Vec<String>,
    pub deny_access: Vec<String>,
    pub forwarded_connect_retries: u32,
    pub admin_address: Option<String>,
    pub proxy_info_url: Option<String>,
    pub user_manual: Option<String>,
    pub trust_info_url: Vec<String>,
    pub confdir: Option<String>,
    pub templdir: Option<String>,
    pub temporary_directory: Option<String>,
    pub logdir: Option<String>,
    pub enable_remote_http_toggle: bool,
    pub enforce_blocks: bool,
    pub enable_proxy_authentication_forwarding: bool,
    pub trusted_cgi_referers: Vec<String>,
    pub cors_allowed_origins: Vec<String>,
    pub hostname: Option<String>,
    pub single_threaded: bool,
    pub compression_level: u8,
    pub feature_flags: FeatureFlags,
    pub config_file: Option<String>,
    pub reload_requested: bool,
    pub client_header_order: Vec<String>,
    pub client_specific_tags: Vec<ClientSpecificTag>,
    pub accept_intercepted_requests: bool,
    pub client_tag_lifetime: u32,
}

/// The model of a configuration.  URL actions and filter rules come from
/// other files, so only their number is part of it.
pub struct ConfigModel {
    pub listen_addresses: Seq<(Seq<char>, u16)>,
    pub forward_specs: Seq<ForwardSpecModel>,
    pub actions: Seq<ActionModel>,
    pub url_actions: nat,
    pub filter_rules: nat,
    pub log_file: Option<Seq<char>>,
    pub log_level: u32,
    pub toggle: bool,
    pub enable_remote_toggle: bool,
    pub enable_edit_actions: bool,
    pub buffer_limit: usize,
    pub connection_timeout_secs: u64,
    pub keep_alive_timeout_secs: u64,
    pub max_client_connections: usize,
    pub trust_files: Seq<Seq<char>>,
    pub actions_files: Seq<Seq<char>>,
    pub filter_files: Seq<Seq<char>>,
    pub permit_access: Seq<Seq<char>>,
    pub deny_access: Seq<Seq<char>>,
    pub forwarded_connect_retries: u32,
    pub admin_address: Option<Seq<char>>,
    pub proxy_info_url: Option<Seq<char>>,
    pub user_manual: Option<Seq<char>>,
    pub trust_info_url: Seq<Seq<char>>,
    pub confdir: Option<Seq<char>>,
    pub templdir: Option<Seq<char>>,
    pub temporary_directory: Option<Seq<char>>,
    pub logdir: Option<Seq<char>>,
    pub enable_remote_http_toggle: bool,
    pub enforce_blocks: bool,
    pub enable_proxy_authentication_forwarding: bool,
    pub trusted_cgi_referers: Seq<Seq<char>>,
    pub cors_allowed_origins: Seq<Seq<char>>,
    pub hostname: Option<Seq<char>>,
    pub single_threaded: bool,
    pub compression_level: u8,
    pub enable_compression: bool,
    pub config_file: Option<Seq<char>>,
    pub reload_requested: bool,
    pub client_header_order: Seq<Seq<char>>,
    pub client_specific_tags: Seq<(Seq<char>, Seq<char>)>,
    pub accept_intercepted_requests: bool,
    pub client_tag_lifetime: u32,
}

impl View for Config {
    type V = ConfigModel;

    open spec fn view(&self) -> ConfigModel {
        ConfigModel {
            listen_addresses: listen_view(self.listen_addresses@),
            forward_specs: forward_view(self.forward_specs@),
            actions: self.actions@.map_values(|a: Action| a@),
            url_actions: self.url_actions@.len(),
            filter_rules: self.filter_rules@.len(),
            log_file: opt_view(self.log_file),
            log_level: self.log_level,
            toggle: self.toggle,
            enable_remote_toggle: self.enable_remote_toggle,
            enable_edit_actions: self.enable_edit_actions,
            buffer_limit: self.buffer_limit,
            connection_timeout_secs: self.connection_timeout_secs,
            keep_alive_timeout_secs: self.keep_alive_timeout_secs,
            max_client_connections: self.max_client_connections,
            trust_files: str_views(self.trust_files@),
            actions_files: str_views(self.actions_files@),
            filter_files: str_views(self.filter_files@),
            permit_access: str_views(self.permit_access@),
            deny_access: str_views(self.deny_access@),
            forwarded_connect_retries: self.forwarded_connect_retries,
            admin_address: opt_view(self.admin_address),
            proxy_info_url: opt_view(self.proxy_info_url),
            user_manual: opt_view(self.user_manual),
            trust_info_url: str_views(self.trust_info_url@),
            confdir: opt_view(self.confdir),
            templdir: opt_view(self.templdir),
            temporary_directory: opt_view(self.temporary_directory),
            logdir: opt_view(self.logdir),
            enable_remote_http_toggle: self.enable_remote_http_toggle,
            enforce_blocks: self.enforce_blocks,
            enable_proxy_authentication_forwarding: self.enable_proxy_authentication_forwarding,
            trusted_cgi_referers: str_views(self.trusted_cgi_referers@),
            cors_allowed_origins: str_views(self.cors_allowed_origins@),
            hostname: opt_view(self.hostname),
            single_threaded: self.single_threaded,
            compression_level: self.compression_level,
            enable_compression: self.feature_flags.enable_compression,
            config_file: opt_view(self.config_file),
            reload_requested: self.reload_requested,
            client_header_order: str_views(self.client_header_order@),
            client_specific_tags: tag_view(self.client_specific_tags@),
            accept_intercepted_requests: self.accept_intercepted_requests,
            client_tag_lifetime: self.client_tag_lifetime,
        }
    }
}

/// The configuration in force before any directive is read.
pub open spec fn default_config() -> ConfigModel {
    ConfigModel {
        listen_addresses: seq![("127.0.0.1"@, 8118u16)],
        forward_specs: Seq::empty(),
        actions: Seq::empty(),
        url_actions: 0,
        filter_rules: 0,
        log_file: None,
        log_level: LOG_LEVEL_INFO | LOG_LEVEL_ERROR | LOG_LEVEL_FATAL,
        toggle: true,
        enable_remote_toggle: true,
        enable_edit_actions: true,
        buffer_limit: 4194304,
        connection_timeout_secs: CONNECTION_TIMEOUT_SECS,
        keep_alive_timeout_secs: KEEP_ALIVE_TIMEOUT_SECS,
        max_client_connections: MAX_CONNECTIONS,
        trust_files: Seq::empty(),
        actions_files: Seq::empty(),
        filter_files: Seq::empty(),
        permit_access: Seq::empty(),
        deny_access: Seq::empty(),
        forwarded_connect_retries: 0,
        admin_address: None,
        proxy_info_url: Some(HOME_PAGE_URL@),
        user_manual: None,
        trust_info_url: Seq::empty(),
        confdir: None,
        templdir: None,
        temporary_directory: None,
        logdir: None,
        enable_remote_http_toggle: false,
        enforce_blocks: false,
        enable_proxy_authentication_forwarding: false,
        trusted_cgi_referers: Seq::empty(),
        cors_allowed_origins: Seq::empty(),
        hostname: None,
        single_threaded: false,
        compression_level: 6,
        enable_compression: true,
        config_file: None,
        reload_requested: false,
        client_header_order: Seq::empty(),
        client_specific_tags: Seq::empty(),
        accept_intercepted_requests: false,
        client_tag_lifetime: 60,
    }
}

impl Default for Config {
    fn default() -> (r: Self)
        ensures
            r@ == default_config(),
    {
        let r = Config {
            listen_addresses: vec![ListenAddress::default()],
            forward_specs: Vec::new(),
            actions: Vec::new(),
            url_actions: Vec::new(),
            filter_rules: Vec::new(),
            log_file: None,
            log_level: LOG_LEVEL_INFO | LOG_LEVEL_ERROR | LOG_LEVEL_FATAL,
            toggle: true,
            enable_remote_toggle: true,
            enable_edit_actions: true,
            buffer_limit: 4096 * 1024,
            connection_timeout_secs: CONNECTION_TIMEOUT_SECS,
            keep_alive_timeout_secs: KEEP_ALIVE_TIMEOUT_SECS,
            max_client_connections: MAX_CONNECTIONS,
            trust_files: Vec::new(),
            actions_files: Vec::new(),
            filter_files: Vec::new(),
            permit_access: Vec::new(),
            deny_access: Vec::new(),
            forwarded_connect_retries: 0,
            admin_address: None,
            proxy_info_url: Some(HOME_PAGE_URL.to_string()),
            user_manual: None,
            trust_info_url: Vec::new(),
            confdir: None,
            templdir: None,
            temporary_directory: None,
            logdir: None,
            enable_remote_http_toggle: false,
            enforce_blocks: false,
            enable_proxy_authentication_forwarding: false,
            trusted_cgi_referers: Vec::new(),
            cors_allowed_origins: Vec::new(),
            hostname: None,
            single_threaded: false,
            compression_level: 6,
            feature_flags: FeatureFlags::default(),
            config_file: None,
            reload_requested: false,
            client_header_order: Vec::new(),
            client_specific_tags: Vec::new(),
            accept_intercepted_requests: false,
            client_tag_lifetime: 60,
        };
        proof {
            reveal_strlit("127.0.0.1");
        }
        assert(listen_view(r.listen_addresses@) =~= seq![("127.0.0.1"@, 8118u16)]);
        assert(forward_view(r.forward_specs@) =~= Seq::empty());
        assert(r.actions@.map_values(|a: Action| a@) =~= Seq::empty());
        assert(str_views(r.trust_files@) =~= Seq::empty());
        assert(str_views(r.actions_files@) =~= Seq::empty());
        assert(str_views(r.filter_files@) =~= Seq::empty());
        assert(str_views(r.permit_access@) =~= Seq::empty());
        assert(str_views(r.deny_access@) =~= Seq::empty());
        assert(str_views(r.trust_info_url@) =~= Seq::empty());
        assert(str_views(r.trusted_cgi_referers@) =~= Seq::empty());
        assert(str_views(r.cors_allowed_origins@) =~= Seq::empty());
        assert(str_views(r.client_header_order@) =~= Seq::empty());
        assert(tag_view(r.client_specific_tags@) =~= Seq::empty());
        r
    }
}
// ---------------------------------------------------------------------------
// Reading directives

/// `str::split_once` with a character separator.
pub open spec fn split_once(s: Seq<char>, c: char) -> Option<(Seq<char>, Seq<char>)> {
    match find_char(s, c) {
        Some(i) => Some((s.subrange(0, i), s.subrange(i + 1, s.len() as int))),
        None => None,
    }
}

/// `str::rsplit_once` with a character separator.
pub open spec fn rsplit_once(s: Seq<char>, c: char) -> Option<(Seq<char>, Seq<char>)> {
    match rfind_char(s, c) {
        Some(i) => Some((s.subrange(0, i), s.subrange(i + 1, s.len() as int))),
        None => None,
    }
}

pub fn split_once_exec(v: &[char], c: char) -> (r: Option<(Vec<char>, Vec<char>)>)
    ensures
        match split_once(v@, c) {
            Some(p) => r matches Some(q) && q.0@ == p.0 && q.1@ == p.1,
            None => r is None,
        },
{
    match find_char_exec(v, c) {
        Some(i) => Some((slice_chars(v, 0, i), slice_chars(v, i + 1, v.len()))),
        None => None,
    }
}

pub fn rsplit_once_exec(v: &[char], c: char) -> (r: Option<(Vec<char>, Vec<char>)>)
    ensures
        match rsplit_once(v@, c) {
            Some(p) => r matches Some(q) && q.0@ == p.0 && q.1@ == p.1,
            None => r is None,
        },
{
    match rfind_char_exec(v, c) {
        Some(i) => Some((slice_chars(v, 0, i), slice_chars(v, i + 1, v.len()))),
        None => None,
    }
}

pub open spec fn config_error<T>(r: PrivoxyResult<T>, m: Seq<char>) -> bool {
    r matches Err(PrivoxyError::Config(x)) && x@ == m
}

fn config_err(prefix: &str, detail: &str) -> (r: PrivoxyError)
    ensures
        r matches PrivoxyError::Config(x) && x@ == prefix@ + detail@,
{
    let mut m = String::new();
    push_str(&mut m, prefix);
    push_str(&mut m, detail);
    PrivoxyError::Config(m)
}

fn config_err_chars(prefix: &str, detail: &[char]) -> (r: PrivoxyError)
    ensures
        r matches PrivoxyError::Config(x) && x@ == prefix@ + detail@,
{
    let mut m = String::new();
    push_str(&mut m, prefix);
    push_chars(&mut m, detail);
    PrivoxyError::Config(m)
}

fn push_string(v: &mut Vec<String>, s: &str)
    ensures
        str_views(final(v)@) == str_views(old(v)@).push(s@),
{
    let ghost before = v@;
    v.push(own(s));
    assert(str_views(v@) =~= str_views(before).push(s@));
}

fn strings_of(v: &Vec<Vec<char>>) -> (r: Vec<String>)
    ensures
        str_views(r@) == views(v@),
{
    let mut r: Vec<String> = Vec::new();
    let mut i: usize = 0;
    while i < v.len()
        invariant
            i <= v.len(),
            str_views(r@) == views(v@).take(i as int),
        decreases v.len() - i,
    {
        let ghost before = r@;
        let s = from_chars(&v[i]);
        r.push(s);
        assert(str_views(r@) =~= str_views(before).push(v@[i as int]@));
        assert(views(v@).take(i as int + 1) =~= views(v@).take(i as int).push(v@[i as int]@));
        i += 1;
    }
    assert(views(v@).take(i as int) =~= views(v@));
    r
}

fn extend_listen(v: &mut Vec<ListenAddress>, more: Vec<ListenAddress>)
    ensures
        listen_view(final(v)@) == listen_view(old(v)@) + listen_view(more@),
{
    let mut i: usize = 0;
    while i < more.len()
        invariant
            i <= more.len(),
            listen_view(v@) == listen_view(old(v)@) + listen_view(more@).take(i as int),
        decreases more.len() - i,
    {
        let ghost before = v@;
        let a = ListenAddress { addr: more[i].addr.clone(), port: more[i].port };
        v.push(a);
        assert(listen_view(v@) =~= listen_view(before).push((more@[i as int].addr@, more@[i as int].port)));
        assert(listen_view(more@).take(i as int + 1) =~= listen_view(more@).take(i as int).push((more@[i as int].addr@, more@[i as int].port)));
        assert(listen_view(v@) =~= listen_view(old(v)@) + listen_view(more@).take(i as int + 1));
        i += 1;
    }
    assert(listen_view(more@).take(i as int) =~= listen_view(more@));
}

/// One listen address `addr:port` or bare `port`.
pub open spec fn listen_entry(part: Seq<char>) -> Result<(Seq<char>, u16), Seq<char>> {
    match rsplit_once(part, ':') {
        Some(p) => match parse_unsigned(p.1, 0xffff) {
            Some(n) => Ok((p.0, n as u16)),
            None => Err("Invalid port: "@ + p.1),
        },
        None => match parse_unsigned(part, 0xffff) {
            Some(n) => Ok(("127.0.0.1"@, n as u16)),
            None => Err("Invalid port: "@ + part),
        },
    }
}

/// The listen addresses of whitespace-separated entries, read in order.
pub open spec fn listen_entries(parts: Seq<Seq<char>>) -> Result<Seq<(Seq<char>, u16)>, Seq<char>>
    decreases parts.len(),
{
    if parts.len() == 0 {
        Ok(Seq::empty())
    } else {
        match listen_entries(parts.drop_last()) {
            Err(e) => Err(e),
            Ok(l) => match listen_entry(parts.last()) {
                Err(e) => Err(e),
                Ok(a) => Ok(l.push(a)),
            },
        }
    }
}

/// The listen addresses a `listen-address` value gives; none means the
/// default address.
pub open spec fn listen_addresses_result(v: Seq<char>) -> Result<Seq<(Seq<char>, u16)>, Seq<char>> {
    match listen_entries(words(v)) {
        Ok(l) => if l.len() == 0 {
            Ok(seq![("127.0.0.1"@, 8118u16)])
        } else {
            Ok(l)
        },
        Err(e) => Err(e),
    }
}

proof fn lemma_listen_err_prefix(ps: Seq<Seq<char>>, k: int)
    requires
        0 <= k <= ps.len(),
        listen_entries(ps.take(k)) is Err,
    ensures
        listen_entries(ps) == listen_entries(ps.take(k)),
    decreases ps.len() - k,
{
    if k < ps.len() {
        assert(ps.take(k + 1).drop_last() =~= ps.take(k));
        lemma_listen_err_prefix(ps, k + 1);
    } else {
        assert(ps.take(k) =~= ps);
    }
}

/// Reads the addresses of a `listen-address` directive.
pub fn parse_listen_addresses(value: &str) -> (r: PrivoxyResult<Vec<ListenAddress>>)
    ensures
        match listen_addresses_result(value@) {
            Ok(l) => r matches Ok(v) && listen_view(v@) == l,
            Err(m) => config_error(r, m),
        },
{
    let vc = chars_of(value);
    let parts = words_exec(&vc);
    let ghost ps = views(parts@);
    let mut addresses: Vec<ListenAddress> = Vec::new();
    let mut i: usize = 0;
    proof {
        reveal_strlit("127.0.0.1");
        assert(ps.take(0) =~= Seq::<Seq<char>>::empty());
        assert(listen_view(addresses@) =~= Seq::<(Seq<char>, u16)>::empty());
    }
    while i < parts.len()
        invariant
            i <= parts.len(),
            ps == views(parts@),
            ps == words(value@),
            listen_entries(ps.take(i as int)) == Ok::<Seq<(Seq<char>, u16)>, Seq<char>>(
                listen_view(addresses@),
            ),
        decreases parts.len() - i,
    {
        proof {
            assert(ps.take(i as int + 1).drop_last() =~= ps.take(i as int));
            assert(ps.take(i as int + 1).last() == ps[i as int]);
        }
        let part = &parts[i];
        let ghost before = addresses@;
        match rsplit_once_exec(part, ':') {
            Some((addr, port_str)) => match parse_u16(&port_str) {
                Some(port) => {
                    addresses.push(ListenAddress { addr: from_chars(&addr), port });
                },
                None => {
                    let e = config_err_chars("Invalid port: ", &port_str);
                    proof {
                        lemma_listen_err_prefix(ps, i as int + 1);
                    }
                    return Err(e);
                },
            },
            None => match parse_u16(part) {
                Some(port) => {
                    addresses.push(ListenAddress { addr: "127.0.0.1".to_string(), port });
                },
                None => {
                    let e = config_err_chars("Invalid port: ", part);
                    proof {
                        lemma_listen_err_prefix(ps, i as int + 1);
                    }
                    return Err(e);
                },
            },
        }
        assert(listen_view(addresses@) =~= listen_view(before).push(listen_entry(ps[i as int])->Ok_0));
        i += 1;
    }
    assert(ps.take(i as int) =~= ps);
    if addresses.len() == 0 {
        addresses.push(ListenAddress::default());
        assert(listen_view(addresses@) =~= seq![("127.0.0.1"@, 8118u16)]);
    }
    Ok(addresses)
}

/// A configuration switch: `1`, `yes`, `true`, `on` or `0`, `no`,
/// `false`, `off`, in any ASCII case.
pub open spec fn bool_result(v: Seq<char>) -> Result<bool, Seq<char>> {
    let l = crate::text::lower(v);
    if l == "1"@ || l == "yes"@ || l == "true"@ || l == "on"@ {
        Ok(true)
    } else if l == "0"@ || l == "no"@ || l == "false"@ || l == "off"@ {
        Ok(false)
    } else {
        Err("Invalid boolean value: "@ + v)
    }
}

fn vec_is(v: &Vec<char>, s: &str) -> (r: bool)
    ensures
        r == (v@ == s@),
{
    let w = chars_of(s);
    seq_eq(v, &w)
}

/// Reads a configuration switch.
pub fn parse_bool(value: &str) -> (r: PrivoxyResult<bool>)
    ensures
        match bool_result(value@) {
            Ok(b) => r matches Ok(x) && x == b,
            Err(m) => config_error(r, m),
        },
{
    let l = crate::text::lower_vec(&chars_of(value));
    if vec_is(&l, "1") || vec_is(&l, "yes") || vec_is(&l, "true") || vec_is(&l, "on") {
        Ok(true)
    } else if vec_is(&l, "0") || vec_is(&l, "no") || vec_is(&l, "false") || vec_is(&l, "off") {
        Ok(false)
    } else {
        Err(config_err("Invalid boolean value: ", value))
    }
}

/// A proxy given as `host:port`, `host` (with the default port) or `.`
/// (none, as `0.0.0.0` and port 0).
pub open spec fn proxy_spec_result(p: Seq<char>, default_port: u16) -> Result<(Seq<char>, u16), Seq<char>> {
    if p == "."@ {
        Ok(("0.0.0.0"@, 0u16))
    } else {
        match rsplit_once(p, ':') {
            Some(h) => match parse_unsigned(h.1, 0xffff) {
                Some(n) => Ok((h.0, n as u16)),
                None => Err("Invalid proxy port: "@ + h.1),
            },
            None => Ok((p, default_port)),
        }
    }
}

/// Reads a proxy given as `host:port`, `host` or `.`.
pub fn parse_proxy_spec(proxy: &str, default_port: u16) -> (r: PrivoxyResult<(String, u16)>)
    ensures
        match proxy_spec_result(proxy@, default_port) {
            Ok(h) => r matches Ok(x) && x.0@ == h.0 && x.1 == h.1,
            Err(m) => config_error(r, m),
        },
{
    if str_eq(proxy, ".") {
        return Ok(("0.0.0.0".to_string(), 0));
    }
    let v = chars_of(proxy);
    match rsplit_once_exec(&v, ':') {
        Some((host, port_str)) => match parse_u16(&port_str) {
            Some(port) => Ok((from_chars(&host), port)),
            None => Err(config_err_chars("Invalid proxy port: ", &port_str)),
        },
        None => Ok((own(proxy), default_port)),
    }
}

pub open spec fn is_socks(t: ForwardType) -> bool {
    t == ForwardType::Socks4 || t == ForwardType::Socks4a || t == ForwardType::Socks5 || t
        == ForwardType::Socks5t
}

/// The forwarding rule that a `forward…` directive's value gives:
/// `pattern proxy` for plain forwarding, `pattern socks-proxy [http-proxy]`
/// for the SOCKS kinds.  A proxy `.` leaves that hop out.
pub open spec fn forward_spec_result(v: Seq<char>, t: ForwardType) -> Result<Option<ForwardSpecModel>, Seq<char>> {
    let parts = words(v);
    if parts.len() == 0 {
        Ok(None)
    } else {
        let base = ForwardSpecModel {
            pattern: parts[0],
            forward_type: t,
            gateway_host: None,
            gateway_port: 0,
            gateway_username: None,
            gateway_password: None,
            forward_host: None,
            forward_port: 0,
        };
        if !is_socks(t) {
            if parts.len() >= 2 {
                match proxy_spec_result(parts[1], 8000) {
                    Err(e) => Err(e),
                    Ok(h) => if h.0 != "0.0.0.0"@ {
                        Ok(Some(ForwardSpecModel { forward_host: Some(h.0), forward_port: h.1, ..base }))
                    } else {
                        Ok(Some(base))
                    },
                }
            } else {
                Ok(Some(base))
            }
        } else {
            let gw: Result<ForwardSpecModel, Seq<char>> = if parts.len() >= 2 {
                match proxy_spec_result(parts[1], 1080) {
                    Err(e) => Err(e),
                    Ok(h) => if h.0 != "0.0.0.0"@ {
                        Ok(ForwardSpecModel { gateway_host: Some(h.0), gateway_port: h.1, ..base })
                    } else {
                        Ok(base)
                    },
                }
            } else {
                Ok(base)
            };
            match gw {
                Err(e) => Err(e),
                Ok(g) => if parts.len() >= 3 {
                    match proxy_spec_result(parts[2], 8000) {
                        Err(e) => Err(e),
                        Ok(h) => if h.0 != "0.0.0.0"@ {
                            Ok(Some(ForwardSpecModel { forward_host: Some(h.0), forward_port: h.1, ..g }))
                        } else {
                            Ok(Some(g))
                        },
                    }
                } else {
                    Ok(Some(g))
                },
            }
        }
    }
}

/// Reads the value of a `forward…` directive.
pub fn parse_forward_spec(value: &str, forward_type: ForwardType) -> (r: PrivoxyResult<Option<ForwardSpec>>)
    ensures
        match forward_spec_result(value@, forward_type) {
            Ok(Some(m)) => r matches Ok(Some(s)) && s@ == m,
            Ok(None) => r matches Ok(None),
            Err(m) => config_error(r, m),
        },
{
    let vc = chars_of(value);
    let parts = words_exec(&vc);
    let ghost ps = views(parts@);
    if parts.len() == 0 {
        return Ok(None);
    }
    assert(parts@[0]@ == ps[0]);
    let mut spec = ForwardSpec {
        pattern: from_chars(&parts[0]),
        forward_type,
        gateway_host: None,
        gateway_port: 0,
        gateway_username: None,
        gateway_password: None,
        forward_host: None,
        forward_port: 0,
    };
    proof {
        reveal_strlit("0.0.0.0");
    }
    let socks = match forward_type {
        ForwardType::Socks4 | ForwardType::Socks4a | ForwardType::Socks5 | ForwardType::Socks5t => true,
        _ => false,
    };
    if !socks {
        if parts.len() >= 2 {
            assert(parts@[1]@ == ps[1]);
            let p1 = from_chars(&parts[1]);
            match parse_proxy_spec(p1.as_str(), 8000) {
                Err(e) => {
                    return Err(e);
                },
                Ok((host, port)) => {
                    if !str_eq(host.as_str(), "0.0.0.0") {
                        spec.forward_host = Some(host);
                        spec.forward_port = port;
                    }
                },
            }
        }
    } else {
        if parts.len() >= 2 {
            assert(parts@[1]@ == ps[1]);
            let p1 = from_chars(&parts[1]);
            match parse_proxy_spec(p1.as_str(), 1080) {
                Err(e) => {
                    return Err(e);
                },
                Ok((host, port)) => {
                    if !str_eq(host.as_str(), "0.0.0.0") {
                        spec.gateway_host = Some(host);
                        spec.gateway_port = port;
                    }
                },
            }
        }
        if parts.len() >= 3 {
            assert(parts@[2]@ == ps[2]);
            let p2 = from_chars(&parts[2]);
            match parse_proxy_spec(p2.as_str(), 8000) {
                Err(e) => {
                    return Err(e);
                },
                Ok((host, port)) => {
                    if !str_eq(host.as_str(), "0.0.0.0") {
                        spec.forward_host = Some(host);
                        spec.forward_port = port;
                    }
                },
            }
        }
    }
    Ok(Some(spec))
}

/// The log level bit a `debug` word names, by number or by name.
pub open spec fn debug_bit(t: Seq<char>) -> u32 {
    if t == "1"@ || t == "request"@ {
        LOG_LEVEL_REQUEST
    } else if t == "2"@ || t == "connect"@ {
        LOG_LEVEL_CONNECT
    } else if t == "4"@ || t == "tagging"@ {
        LOG_LEVEL_TAGGING
    } else if t == "8"@ || t == "header"@ {
        LOG_LEVEL_HEADER
    } else if t == "16"@ || t == "writing"@ {
        LOG_LEVEL_WRITING
    } else if t == "32"@ || t == "force"@ {
        LOG_LEVEL_FORCE
    } else if t == "64"@ || t == "re-filter"@ {
        LOG_LEVEL_RE_FILTER
    } else if t == "128"@ || t == "redirects"@ {
        LOG_LEVEL_REDIRECTS
    } else if t == "256"@ || t == "deanimate"@ {
        LOG_LEVEL_DEANIMATE
    } else if t == "512"@ || t == "clf"@ {
        LOG_LEVEL_CLF
    } else if t == "1024"@ || t == "crunch"@ {
        LOG_LEVEL_CRUNCH
    } else if t == "2048"@ || t == "cgi"@ {
        LOG_LEVEL_CGI
    } else if t == "4096"@ || t == "info"@ {
        LOG_LEVEL_INFO
    } else if t == "8192"@ || t == "error"@ {
        LOG_LEVEL_ERROR
    } else if t == "16384"@ || t == "fatal"@ {
        LOG_LEVEL_FATAL
    } else if t == "32768"@ || t == "received"@ {
        LOG_LEVEL_RECEIVED
    } else {
        0
    }
}

pub open spec fn debug_bits(ws: Seq<Seq<char>>) -> u32
    decreases ws.len(),
{
    if ws.len() == 0 {
        0
    } else {
        debug_bits(ws.drop_last()) | debug_bit(ws.last())
    }
}

/// The log levels a `debug` value names; none names info, error and fatal.
pub open spec fn debug_level_of(v: Seq<char>) -> u32 {
    let b = debug_bits(words(v));
    if b == 0 {
        LOG_LEVEL_INFO | LOG_LEVEL_ERROR | LOG_LEVEL_FATAL
    } else {
        b
    }
}

fn debug_bit_exec(t: &Vec<char>) -> (r: u32)
    ensures
        r == debug_bit(t@),
{
    if vec_is(t, "1") || vec_is(t, "request") {
        LOG_LEVEL_REQUEST
    } else if vec_is(t, "2") || vec_is(t, "connect") {
        LOG_LEVEL_CONNECT
    } else if vec_is(t, "4") || vec_is(t, "tagging") {
        LOG_LEVEL_TAGGING
    } else if vec_is(t, "8") || vec_is(t, "header") {
        LOG_LEVEL_HEADER
    } else if vec_is(t, "16") || vec_is(t, "writing") {
        LOG_LEVEL_WRITING
    } else if vec_is(t, "32") || vec_is(t, "force") {
        LOG_LEVEL_FORCE
    } else if vec_is(t, "64") || vec_is(t, "re-filter") {
        LOG_LEVEL_RE_FILTER
    } else if vec_is(t, "128") || vec_is(t, "redirects") {
        LOG_LEVEL_REDIRECTS
    } else if vec_is(t, "256") || vec_is(t, "deanimate") {
        LOG_LEVEL_DEANIMATE
    } else if vec_is(t, "512") || vec_is(t, "clf") {
        LOG_LEVEL_CLF
    } else if vec_is(t, "1024") || vec_is(t, "crunch") {
        LOG_LEVEL_CRUNCH
    } else if vec_is(t, "2048") || vec_is(t, "cgi") {
        LOG_LEVEL_CGI
    } else if vec_is(t, "4096") || vec_is(t, "info") {
        LOG_LEVEL_INFO
    } else if vec_is(t, "8192") || vec_is(t, "error") {
        LOG_LEVEL_ERROR
    } else if vec_is(t, "16384") || vec_is(t, "fatal") {
        LOG_LEVEL_FATAL
    } else if vec_is(t, "32768") || vec_is(t, "received") {
        LOG_LEVEL_RECEIVED
    } else {
        0
    }
}

/// Reads the log levels of a `debug` directive (it never fails).
pub fn parse_debug_level(value: &str) -> (r: PrivoxyResult<u32>)
    ensures
        r matches Ok(l) && l == debug_level_of(value@),
{
    let vc = chars_of(value);
    let parts = words_exec(&vc);
    let ghost ps = views(parts@);
    let mut level: u32 = 0;
    let mut i: usize = 0;
    while i < parts.len()
        invariant
            i <= parts.len(),
            ps == views(parts@),
            ps == words(value@),
            level == debug_bits(ps.take(i as int)),
        decreases parts.len() - i,
    {
        proof {
            assert(ps.take(i as int + 1).drop_last() =~= ps.take(i as int));
            assert(ps.take(i as int + 1).last() == ps[i as int]);
        }
        level = level | debug_bit_exec(&parts[i]);
        i += 1;
    }
    assert(ps.take(i as int) =~= ps);
    if level == 0 {
        level = LOG_LEVEL_INFO | LOG_LEVEL_ERROR | LOG_LEVEL_FATAL;
    }
    Ok(level)
}


/// What the directives `listen-address`, `logfile`, `toggle`, `enable-remote-toggle`, `enable-edit-actions`, `buffer-limit` do to the configuration.
pub open spec fn directives_listening_and_switches(c: ConfigModel, k: Seq<char>, v: Seq<char>) -> Option<Result<ConfigModel, Seq<char>>> {
    if k == "listen-address"@ {
        Some(match listen_addresses_result(v) { Ok(l) => Ok(ConfigModel { listen_addresses: c.listen_addresses + l, ..c }), Err(e) => Err(e) })
    } else if k == "logfile"@ {
        Some(Ok(ConfigModel { log_file: Some(v), ..c }))
    } else if k == "toggle"@ {
        Some(match bool_result(v) { Ok(b) => Ok(ConfigModel { toggle: b, ..c }), Err(e) => Err(e) })
    } else if k == "enable-remote-toggle"@ {
        Some(match bool_result(v) { Ok(b) => Ok(ConfigModel { enable_remote_toggle: b, ..c }), Err(e) => Err(e) })
    } else if k == "enable-edit-actions"@ {
        Some(match bool_result(v) { Ok(b) => Ok(ConfigModel { enable_edit_actions: b, ..c }), Err(e) => Err(e) })
    } else if k == "buffer-limit"@ {
        Some(match parse_unsigned(v, usize::MAX as int) { Some(n) => Ok(ConfigModel { buffer_limit: (n as usize).wrapping_mul(1024), ..c }), None => Err("Invalid buffer limit: "@ + v) })
    } else {
        None
    }
}

/// What the directives `max-client-connections`, `actionsfile`, `filterfile`, `trustfile`, `permit-access`, `deny-access` do to the configuration.
pub open spec fn directives_files_and_access(c: ConfigModel, k: Seq<char>, v: Seq<char>) -> Option<Result<ConfigModel, Seq<char>>> {
    if k == "max-client-connections"@ {
        Some(match parse_unsigned(v, usize::MAX as int) { Some(n) => Ok(ConfigModel { max_client_connections: n as usize, ..c }), None => Err("Invalid max connections: "@ + v) })
    } else if k == "actionsfile"@ {
        Some(Ok(ConfigModel { actions_files: c.actions_files.push(v), ..c }))
    } else if k == "filterfile"@ {
        Some(Ok(ConfigModel { filter_files: c.filter_files.push(v), ..c }))
    } else if k == "trustfile"@ {
        Some(Ok(ConfigModel { trust_files: c.trust_files.push(v), ..c }))
    } else if k == "permit-access"@ {
        Some(Ok(ConfigModel { permit_access: c.permit_access.push(v), ..c }))
    } else if k == "deny-access"@ {
        Some(Ok(ConfigModel { deny_access: c.deny_access.push(v), ..c }))
    } else {
        None
    }
}

/// What the directives `admin-address`, `forward` do to the configuration.
pub open spec fn directives_admin_and_forward(c: ConfigModel, k: Seq<char>, v: Seq<char>) -> Option<Result<ConfigModel, Seq<char>>> {
    if k == "admin-address"@ {
        Some(Ok(ConfigModel { admin_address: Some(v), ..c }))
    } else if k == "forward"@ {
        Some(match forward_spec_result(v, ForwardType::Direct) { Ok(Some(s)) => Ok(ConfigModel { forward_specs: c.forward_specs.push(s), ..c }), Ok(None) => Ok(c), Err(e) => Err(e) })
    } else if k == "forward-socks4"@ {
        Some(match forward_spec_result(v, ForwardType::Socks4) { Ok(Some(s)) => Ok(ConfigModel { forward_specs: c.forward_specs.push(s), ..c }), Ok(None) => Ok(c), Err(e) => Err(e) })
    } else if k == "forward-socks4a"@ {
        Some(match forward_spec_result(v, ForwardType::Socks4a) { Ok(Some(s)) => Ok(ConfigModel { forward_specs: c.forward_specs.push(s), ..c }), Ok(None) => Ok(c), Err(e) => Err(e) })
    } else if k == "forward-socks5"@ {
        Some(match forward_spec_result(v, ForwardType::Socks5) { Ok(Some(s)) => Ok(ConfigModel { forward_specs: c.forward_specs.push(s), ..c }), Ok(None) => Ok(c), Err(e) => Err(e) })
    } else if k == "forward-socks5t"@ {
        Some(match forward_spec_result(v, ForwardType::Socks5t) { Ok(Some(s)) => Ok(ConfigModel { forward_specs: c.forward_specs.push(s), ..c }), Ok(None) => Ok(c), Err(e) => Err(e) })
    } else {
        None
    }
}

/// What the directives `forward-http`, `forward-webserver`, `debug`, `log-level`, `enable-compression`, `compression-level`, `user-manual` do to the configuration.
pub open spec fn directives_forwarding_and_logging(c: ConfigModel, k: Seq<char>, v: Seq<char>) -> Option<Result<ConfigModel, Seq<char>>> {
    if k == "forward-http"@ {
        Some(match forward_spec_result(v, ForwardType::Http) { Ok(Some(s)) => Ok(ConfigModel { forward_specs: c.forward_specs.push(s), ..c }), Ok(None) => Ok(c), Err(e) => Err(e) })
    } else if k == "forward-webserver"@ {
        Some(match forward_spec_result(v, ForwardType::ForwardWebserver) { Ok(Some(s)) => Ok(ConfigModel { forward_specs: c.forward_specs.push(s), ..c }), Ok(None) => Ok(c), Err(e) => Err(e) })
    } else if k == "debug"@ || k == "log-level"@ {
        Some(Ok(ConfigModel { log_level: c.log_level | debug_level_of(v), ..c }))
    } else if k == "enable-compression"@ {
        Some(match bool_result(v) { Ok(b) => Ok(ConfigModel { enable_compression: b, ..c }), Err(e) => Err(e) })
    } else if k == "compression-level"@ {
        Some(match parse_unsigned(v, 0xff) { Some(n) => if n > 9 { Err("Compression level must be 0-9"@) } else { Ok(ConfigModel { compression_level: n as u8, ..c }) }, None => Err("Invalid compression level: "@ + v) })
    } else if k == "user-manual"@ {
        Some(Ok(ConfigModel { user_manual: Some(v), ..c }))
    } else {
        None
    }
}

/// What the directives `trust-info-url`, `confdir`, `templdir`, `temporary-directory`, `logdir`, `enable-remote-http-toggle` do to the configuration.
pub open spec fn directives_locations(c: ConfigModel, k: Seq<char>, v: Seq<char>) -> Option<Result<ConfigModel, Seq<char>>> {
    if k == "trust-info-url"@ {
        Some(Ok(ConfigModel { trust_info_url: c.trust_info_url.push(v), ..c }))
    } else if k == "confdir"@ {
        Some(Ok(ConfigModel { confdir: Some(v), ..c }))
    } else if k == "templdir"@ {
        Some(Ok(ConfigModel { templdir: Some(v), ..c }))
    } else if k == "temporary-directory"@ {
        Some(Ok(ConfigModel { temporary_directory: Some(v), ..c }))
    } else if k == "logdir"@ {
        Some(Ok(ConfigModel { logdir: Some(v), ..c }))
    } else if k == "enable-remote-http-toggle"@ {
        Some(match bool_result(v) { Ok(b) => Ok(ConfigModel { enable_remote_http_toggle: b, ..c }), Err(e) => Err(e) })
    } else {
        None
    }
}

/// What the directives `enforce-blocks`, `enable-proxy-authentication-forwarding`, `trusted-cgi-referer`, `cors-allowed-origin`, `hostname`, `single-threaded` do to the configuration.
pub open spec fn directives_trust_and_interface(c: ConfigModel, k: Seq<char>, v: Seq<char>) -> Option<Result<ConfigModel, Seq<char>>> {
    if k == "enforce-blocks"@ {
        Some(match bool_result(v) { Ok(b) => Ok(ConfigModel { enforce_blocks: b, ..c }), Err(e) => Err(e) })
    } else if k == "enable-proxy-authentication-forwarding"@ {
        Some(match bool_result(v) { Ok(b) => Ok(ConfigModel { enable_proxy_authentication_forwarding: b, ..c }), Err(e) => Err(e) })
    } else if k == "trusted-cgi-referer"@ {
        Some(Ok(ConfigModel { trusted_cgi_referers: c.trusted_cgi_referers.push(v), ..c }))
    } else if k == "cors-allowed-origin"@ {
        Some(Ok(ConfigModel { cors_allowed_origins: c.cors_allowed_origins.push(v), ..c }))
    } else if k == "hostname"@ {
        Some(Ok(ConfigModel { hostname: Some(v), ..c }))
    } else if k == "single-threaded"@ {
        Some(match bool_result(v) { Ok(b) => Ok(ConfigModel { single_threaded: b, ..c }), Err(e) => Err(e) })
    } else {
        None
    }
}

/// What the directives `proxy-info-url`, `client-header-order`, `client-specific-tag`, `client-tag-lifetime`, `accept-intercepted-requests`, `log-file` do to the configuration.
pub open spec fn directives_client_handling(c: ConfigModel, k: Seq<char>, v: Seq<char>) -> Option<Result<ConfigModel, Seq<char>>> {
    if k == "proxy-info-url"@ {
        Some(Ok(ConfigModel { proxy_info_url: Some(v), ..c }))
    } else if k == "client-header-order"@ {
        Some(Ok(ConfigModel { client_header_order: words(v), ..c }))
    } else if k == "client-specific-tag"@ {
        Some(match split_once(v, ' ') { Some(p) => Ok(ConfigModel { client_specific_tags: c.client_specific_tags.push((trim(p.0), trim(p.1))), ..c }), None => Ok(c) })
    } else if k == "client-tag-lifetime"@ {
        Some(match parse_unsigned(v, 0xffff_ffff) { Some(n) => Ok(ConfigModel { client_tag_lifetime: n as u32, ..c }), None => Err("Invalid client-tag-lifetime: "@ + v) })
    } else if k == "accept-intercepted-requests"@ {
        Some(match bool_result(v) { Ok(b) => Ok(ConfigModel { accept_intercepted_requests: b, ..c }), Err(e) => Err(e) })
    } else if k == "log-file"@ {
        Some(Ok(ConfigModel { log_file: Some(v), ..c }))
    } else {
        None
    }
}

/// What the directives `socket-timeout`, `connection-timeout`, `keep-alive-timeout`, `forwarded-connect-retries` do to the configuration.
pub open spec fn directives_timeouts(c: ConfigModel, k: Seq<char>, v: Seq<char>) -> Option<Result<ConfigModel, Seq<char>>> {
    if k == "socket-timeout"@ || k == "connection-timeout"@ {
        Some(match parse_unsigned(v, u64::MAX as int) { Some(n) => Ok(ConfigModel { connection_timeout_secs: n as u64, ..c }), None => Err("Invalid timeout: "@ + v) })
    } else if k == "keep-alive-timeout"@ {
        Some(match parse_unsigned(v, u64::MAX as int) { Some(n) => Ok(ConfigModel { keep_alive_timeout_secs: n as u64, ..c }), None => Err("Invalid keep-alive timeout: "@ + v) })
    } else if k == "forwarded-connect-retries"@ {
        Some(match parse_unsigned(v, 0xffff_ffff) { Some(n) => Ok(ConfigModel { forwarded_connect_retries: n as u32, ..c }), None => Err("Invalid retries: "@ + v) })
    } else {
        None
    }
}


/// What a directive `k v` does to the configuration.  Unknown directives,
/// and those only noted in the log, leave it as it is.
pub open spec fn apply_directive(c: ConfigModel, k: Seq<char>, v: Seq<char>) -> Result<ConfigModel, Seq<char>> {
    match directives_listening_and_switches(c, k, v) {
        Some(r) => r,
        None => match directives_files_and_access(c, k, v) {
        Some(r) => r,
        None => match directives_admin_and_forward(c, k, v) {
        Some(r) => r,
        None => match directives_forwarding_and_logging(c, k, v) {
        Some(r) => r,
        None => match directives_locations(c, k, v) {
        Some(r) => r,
        None => match directives_trust_and_interface(c, k, v) {
        Some(r) => r,
        None => match directives_client_handling(c, k, v) {
        Some(r) => r,
        None => match directives_timeouts(c, k, v) {
        Some(r) => r,
        None => Ok(c),
    },
    },
    },
    },
    },
    },
    },
    }
}

/// What one line of the configuration file does: a blank line, or one
/// without a space between directive and value, does nothing.
pub open spec fn config_line(c: ConfigModel, line: Seq<char>) -> Result<ConfigModel, Seq<char>> {
    let t = trim(line);
    if t.len() == 0 {
        Ok(c)
    } else {
        match split_once(t, ' ') {
            None => Ok(c),
            Some(p) => apply_directive(c, trim(p.0), trim(p.1)),
        }
    }
}

/// The configuration after reading lines in order; the first bad line
/// decides the error.
pub open spec fn config_lines(lines: Seq<Seq<char>>) -> Result<ConfigModel, Seq<char>>
    decreases lines.len(),
{
    if lines.len() == 0 {
        Ok(default_config())
    } else {
        match config_lines(lines.drop_last()) {
            Err(e) => Err(e),
            Ok(c) => config_line(c, lines.last()),
        }
    }
}

/// The configuration a configuration text gives.
pub open spec fn config_result(content: Seq<char>) -> Result<ConfigModel, Seq<char>> {
    config_lines(split_char(content, '\n'))
}

proof fn lemma_config_err_prefix(ls: Seq<Seq<char>>, k: int)
    requires
        0 <= k <= ls.len(),
        config_lines(ls.take(k)) is Err,
    ensures
        config_lines(ls) == config_lines(ls.take(k)),
    decreases ls.len() - k,
{
    if k < ls.len() {
        assert(ls.take(k + 1).drop_last() =~= ls.take(k));
        lemma_config_err_prefix(ls, k + 1);
    } else {
        assert(ls.take(k) =~= ls);
    }
}

impl Config {
    #[verifier::rlimit(80)]
    fn directives_listening_and_switches_exec(&mut self, key: &str, value: &str) -> (r: Option<PrivoxyResult<()>>)
        ensures
            match directives_listening_and_switches(old(self)@, key@, value@) {
                None => r is None && final(self)@ == old(self)@,
                Some(Ok(m)) => r matches Some(Ok(_)) && final(self)@ == m,
                Some(Err(m)) => r matches Some(Err(PrivoxyError::Config(x))) && x@ == m,
            },
    {
        let vc = chars_of(value);
        if str_eq(key, "listen-address") {
                let more = match parse_listen_addresses(value) { Ok(m) => m, Err(e) => { return Some(Err(e)); } };
                extend_listen(&mut self.listen_addresses, more);
        } else if str_eq(key, "logfile") {
                self.log_file = Some(own(value));
        } else if str_eq(key, "toggle") {
                match parse_bool(value) { Ok(b) => { self.toggle = b; }, Err(e) => { return Some(Err(e)); } }
        } else if str_eq(key, "enable-remote-toggle") {
                match parse_bool(value) { Ok(b) => { self.enable_remote_toggle = b; }, Err(e) => { return Some(Err(e)); } }
        } else if str_eq(key, "enable-edit-actions") {
                match parse_bool(value) { Ok(b) => { self.enable_edit_actions = b; }, Err(e) => { return Some(Err(e)); } }
        } else if str_eq(key, "buffer-limit") {
                match parse_usize(&vc) { Some(n) => { self.buffer_limit = n.wrapping_mul(1024); }, None => { return Some(Err(config_err("Invalid buffer limit: ", value))); } }
        } else {
            return None;
        }
        Some(Ok(()))
    }

    #[verifier::rlimit(80)]
    fn directives_files_and_access_exec(&mut self, key: &str, value: &str) -> (r: Option<PrivoxyResult<()>>)
        ensures
            match directives_files_and_access(old(self)@, key@, value@) {
                None => r is None && final(self)@ == old(self)@,
                Some(Ok(m)) => r matches Some(Ok(_)) && final(self)@ == m,
                Some(Err(m)) => r matches Some(Err(PrivoxyError::Config(x))) && x@ == m,
            },
    {
        let vc = chars_of(value);
        if str_eq(key, "max-client-connections") {
                match parse_usize(&vc) { Some(n) => { self.max_client_connections = n; }, None => { return Some(Err(config_err("Invalid max connections: ", value))); } }
        } else if str_eq(key, "actionsfile") {
                push_string(&mut self.actions_files, value);
        } else if str_eq(key, "filterfile") {
                push_string(&mut self.filter_files, value);
        } else if str_eq(key, "trustfile") {
                push_string(&mut self.trust_files, value);
        } else if str_eq(key, "permit-access") {
                push_string(&mut self.permit_access, value);
        } else if str_eq(key, "deny-access") {
                push_string(&mut self.deny_access, value);
        } else {
            return None;
        }
        Some(Ok(()))
    }

    #[verifier::rlimit(80)]
    fn directives_admin_and_forward_exec(&mut self, key: &str, value: &str) -> (r: Option<PrivoxyResult<()>>)
        ensures
            match directives_admin_and_forward(old(self)@, key@, value@) {
                None => r is None && final(self)@ == old(self)@,
                Some(Ok(m)) => r matches Some(Ok(_)) && final(self)@ == m,
                Some(Err(m)) => r matches Some(Err(PrivoxyError::Config(x))) && x@ == m,
            },
    {
        let vc = chars_of(value);
        if str_eq(key, "admin-address") {
                self.admin_address = Some(own(value));
        } else if str_eq(key, "forward") {
                match parse_forward_spec(value, ForwardType::Direct) { Ok(Some(s)) => { let ghost before = self.forward_specs@; self.forward_specs.push(s); assert(forward_view(self.forward_specs@) =~= forward_view(before).push(s@)); }, Ok(None) => {}, Err(e) => { return Some(Err(e)); } }
        } else if str_eq(key, "forward-socks4") {
                match parse_forward_spec(value, ForwardType::Socks4) { Ok(Some(s)) => { let ghost before = self.forward_specs@; self.forward_specs.push(s); assert(forward_view(self.forward_specs@) =~= forward_view(before).push(s@)); }, Ok(None) => {}, Err(e) => { return Some(Err(e)); } }
        } else if str_eq(key, "forward-socks4a") {
                match parse_forward_spec(value, ForwardType::Socks4a) { Ok(Some(s)) => { let ghost before = self.forward_specs@; self.forward_specs.push(s); assert(forward_view(self.forward_specs@) =~= forward_view(before).push(s@)); }, Ok(None) => {}, Err(e) => { return Some(Err(e)); } }
        } else if str_eq(key, "forward-socks5") {
                match parse_forward_spec(value, ForwardType::Socks5) { Ok(Some(s)) => { let ghost before = self.forward_specs@; self.forward_specs.push(s); assert(forward_view(self.forward_specs@) =~= forward_view(before).push(s@)); }, Ok(None) => {}, Err(e) => { return Some(Err(e)); } }
        } else if str_eq(key, "forward-socks5t") {
                match parse_forward_spec(value, ForwardType::Socks5t) { Ok(Some(s)) => { let ghost before = self.forward_specs@; self.forward_specs.push(s); assert(forward_view(self.forward_specs@) =~= forward_view(before).push(s@)); }, Ok(None) => {}, Err(e) => { return Some(Err(e)); } }
        } else {
            return None;
        }
        Some(Ok(()))
    }

    #[verifier::rlimit(80)]
    fn directives_forwarding_and_logging_exec(&mut self, key: &str, value: &str) -> (r: Option<PrivoxyResult<()>>)
        ensures
            match directives_forwarding_and_logging(old(self)@, key@, value@) {
                None => r is None && final(self)@ == old(self)@,
                Some(Ok(m)) => r matches Some(Ok(_)) && final(self)@ == m,
                Some(Err(m)) => r matches Some(Err(PrivoxyError::Config(x))) && x@ == m,
            },
    {
        let vc = chars_of(value);
        if str_eq(key, "forward-http") {
                match parse_forward_spec(value, ForwardType::Http) { Ok(Some(s)) => { let ghost before = self.forward_specs@; self.forward_specs.push(s); assert(forward_view(self.forward_specs@) =~= forward_view(before).push(s@)); }, Ok(None) => {}, Err(e) => { return Some(Err(e)); } }
        } else if str_eq(key, "forward-webserver") {
                match parse_forward_spec(value, ForwardType::ForwardWebserver) { Ok(Some(s)) => { let ghost before = self.forward_specs@; self.forward_specs.push(s); assert(forward_view(self.forward_specs@) =~= forward_view(before).push(s@)); }, Ok(None) => {}, Err(e) => { return Some(Err(e)); } }
        } else if str_eq(key, "debug") || str_eq(key, "log-level") {
                let bits = match parse_debug_level(value) { Ok(b) => b, Err(e) => { return Some(Err(e)); } };
                self.log_level = self.log_level | bits;
        } else if str_eq(key, "enable-compression") {
                match parse_bool(value) { Ok(b) => { self.feature_flags.enable_compression = b; }, Err(e) => { return Some(Err(e)); } }
        } else if str_eq(key, "compression-level") {
                match parse_u8(&vc) { Some(n) => { if n > 9 { return Some(Err(PrivoxyError::Config("Compression level must be 0-9".to_string()))); } self.compression_level = n; }, None => { return Some(Err(config_err("Invalid compression level: ", value))); } }
        } else if str_eq(key, "user-manual") {
                self.user_manual = Some(own(value));
        } else {
            return None;
        }
        Some(Ok(()))
    }

    #[verifier::rlimit(80)]
    fn directives_locations_exec(&mut self, key: &str, value: &str) -> (r: Option<PrivoxyResult<()>>)
        ensures
            match directives_locations(old(self)@, key@, value@) {
                None => r is None && final(self)@ == old(self)@,
                Some(Ok(m)) => r matches Some(Ok(_)) && final(self)@ == m,
                Some(Err(m)) => r matches Some(Err(PrivoxyError::Config(x))) && x@ == m,
            },
    {
        let vc = chars_of(value);
        if str_eq(key, "trust-info-url") {
                push_string(&mut self.trust_info_url, value);
        } else if str_eq(key, "confdir") {
                self.confdir = Some(own(value));
        } else if str_eq(key, "templdir") {
                self.templdir = Some(own(value));
        } else if str_eq(key, "temporary-directory") {
                self.temporary_directory = Some(own(value));
        } else if str_eq(key, "logdir") {
                self.logdir = Some(own(value));
        } else if str_eq(key, "enable-remote-http-toggle") {
                match parse_bool(value) { Ok(b) => { self.enable_remote_http_toggle = b; }, Err(e) => { return Some(Err(e)); } }
        } else {
            return None;
        }
        Some(Ok(()))
    }

    #[verifier::rlimit(80)]
    fn directives_trust_and_interface_exec(&mut self, key: &str, value: &str) -> (r: Option<PrivoxyResult<()>>)
        ensures
            match directives_trust_and_interface(old(self)@, key@, value@) {
                None => r is None && final(self)@ == old(self)@,
                Some(Ok(m)) => r matches Some(Ok(_)) && final(self)@ == m,
                Some(Err(m)) => r matches Some(Err(PrivoxyError::Config(x))) && x@ == m,
            },
    {
        let vc = chars_of(value);
        if str_eq(key, "enforce-blocks") {
                match parse_bool(value) { Ok(b) => { self.enforce_blocks = b; }, Err(e) => { return Some(Err(e)); } }
        } else if str_eq(key, "enable-proxy-authentication-forwarding") {
                match parse_bool(value) { Ok(b) => { self.enable_proxy_authentication_forwarding = b; }, Err(e) => { return Some(Err(e)); } }
        } else if str_eq(key, "trusted-cgi-referer") {
                push_string(&mut self.trusted_cgi_referers, value);
        } else if str_eq(key, "cors-allowed-origin") {
                push_string(&mut self.cors_allowed_origins, value);
        } else if str_eq(key, "hostname") {
                self.hostname = Some(own(value));
        } else if str_eq(key, "single-threaded") {
                match parse_bool(value) { Ok(b) => { self.single_threaded = b; }, Err(e) => { return Some(Err(e)); } }
        } else {
            return None;
        }
        Some(Ok(()))
    }

    #[verifier::rlimit(80)]
    fn directives_client_handling_exec(&mut self, key: &str, value: &str) -> (r: Option<PrivoxyResult<()>>)
        ensures
            match directives_client_handling(old(self)@, key@, value@) {
                None => r is None && final(self)@ == old(self)@,
                Some(Ok(m)) => r matches Some(Ok(_)) && final(self)@ == m,
                Some(Err(m)) => r matches Some(Err(PrivoxyError::Config(x))) && x@ == m,
            },
    {
        let vc = chars_of(value);
        if str_eq(key, "proxy-info-url") {
                self.proxy_info_url = Some(own(value));
        } else if str_eq(key, "client-header-order") {
                let ws = words_exec(&vc);
                self.client_header_order = strings_of(&ws);
        } else if str_eq(key, "client-specific-tag") {
                match split_once_exec(&vc, ' ') { Some((a, b)) => { let ghost before = self.client_specific_tags@; self.client_specific_tags.push(ClientSpecificTag { name: from_chars(&trim_vec(&a)), description: from_chars(&trim_vec(&b)) }); assert(tag_view(self.client_specific_tags@) =~= tag_view(before).push((trim(a@), trim(b@)))); }, None => {} }
        } else if str_eq(key, "client-tag-lifetime") {
                match parse_u32(&vc) { Some(n) => { self.client_tag_lifetime = n; }, None => { return Some(Err(config_err("Invalid client-tag-lifetime: ", value))); } }
        } else if str_eq(key, "accept-intercepted-requests") {
                match parse_bool(value) { Ok(b) => { self.accept_intercepted_requests = b; }, Err(e) => { return Some(Err(e)); } }
        } else if str_eq(key, "log-file") {
                self.log_file = Some(own(value));
        } else {
            return None;
        }
        Some(Ok(()))
    }

    #[verifier::rlimit(80)]
    fn directives_timeouts_exec(&mut self, key: &str, value: &str) -> (r: Option<PrivoxyResult<()>>)
        ensures
            match directives_timeouts(old(self)@, key@, value@) {
                None => r is None && final(self)@ == old(self)@,
                Some(Ok(m)) => r matches Some(Ok(_)) && final(self)@ == m,
                Some(Err(m)) => r matches Some(Err(PrivoxyError::Config(x))) && x@ == m,
            },
    {
        let vc = chars_of(value);
        if str_eq(key, "socket-timeout") || str_eq(key, "connection-timeout") {
                match parse_u64(&vc) { Some(n) => { self.connection_timeout_secs = n; }, None => { return Some(Err(config_err("Invalid timeout: ", value))); } }
        } else if str_eq(key, "keep-alive-timeout") {
                match parse_u64(&vc) { Some(n) => { self.keep_alive_timeout_secs = n; }, None => { return Some(Err(config_err("Invalid keep-alive timeout: ", value))); } }
        } else if str_eq(key, "forwarded-connect-retries") {
                match parse_u32(&vc) { Some(n) => { self.forwarded_connect_retries = n; }, None => { return Some(Err(config_err("Invalid retries: ", value))); } }
        } else {
            return None;
        }
        Some(Ok(()))
    }

    /// Applies one directive.
    pub fn apply_directive(&mut self, key: &str, value: &str) -> (r: PrivoxyResult<()>)
        ensures
            match apply_directive(old(self)@, key@, value@) {
                Ok(m) => r is Ok && final(self)@ == m,
                Err(m) => config_error(r, m),
            },
    {
        match self.directives_listening_and_switches_exec(key, value) {
            Some(r) => {
                return r;
            },
            None => {},
        }
        match self.directives_files_and_access_exec(key, value) {
            Some(r) => {
                return r;
            },
            None => {},
        }
        match self.directives_admin_and_forward_exec(key, value) {
            Some(r) => {
                return r;
            },
            None => {},
        }
        match self.directives_forwarding_and_logging_exec(key, value) {
            Some(r) => {
                return r;
            },
            None => {},
        }
        match self.directives_locations_exec(key, value) {
            Some(r) => {
                return r;
            },
            None => {},
        }
        match self.directives_trust_and_interface_exec(key, value) {
            Some(r) => {
                return r;
            },
            None => {},
        }
        match self.directives_client_handling_exec(key, value) {
            Some(r) => {
                return r;
            },
            None => {},
        }
        match self.directives_timeouts_exec(key, value) {
            Some(r) => {
                return r;
            },
            None => {},
        }
        Ok(())
    }

    /// Reads a configuration text, directive by directive.  Files that the
    /// directives name are not read here.
    pub fn parse(content: &str) -> (r: PrivoxyResult<Self>)
        ensures
            match config_result(content@) {
                Ok(m) => r matches Ok(c) && c@ == m,
                Err(m) => config_error(r, m),
            },
    {
        let vc = chars_of(content);
        let lines = split_char_exec(&vc, '\n');
        let ghost ls = views(lines@);
        let mut config = Config::default();
        let mut i: usize = 0;
        while i < lines.len()
            invariant
                i <= lines.len(),
                ls == views(lines@),
                ls == split_char(content@, '\n'),
                config_lines(ls.take(i as int)) == Ok::<ConfigModel, Seq<char>>(config@),
            decreases lines.len() - i,
        {
            proof {
                assert(ls.take(i as int + 1).drop_last() =~= ls.take(i as int));
                assert(ls.take(i as int + 1).last() == ls[i as int]);
            }
            let t = trim_vec(&lines[i]);
            if t.len() > 0 {
                match split_once_exec(&t, ' ') {
                    None => {},
                    Some((k, v)) => {
                        let key = from_chars(&trim_vec(&k));
                        let value = from_chars(&trim_vec(&v));
                        match config.apply_directive(key.as_str(), value.as_str()) {
                            Ok(()) => {},
                            Err(e) => {
                                proof {
                                    lemma_config_err_prefix(ls, i as int + 1);
                                }
                                return Err(e);
                            },
                        }
                    },
                }
            }
            i += 1;
        }
        assert(ls.take(i as int) =~= ls);
        Ok(config)
    }
}


// ---------------------------------------------------------------------------
// Paths relative to the configuration

/// A file named in the configuration, taken relative to `confdir` unless
/// it is absolute.
pub open spec fn resolved_path(confdir: Seq<char>, p: Seq<char>) -> Seq<char> {
    if path_absolute(p) {
        p
    } else {
        path_joined(confdir, p)
    }
}

/// The configuration directory in force: the one configured, else the
/// directory of the configuration file.
pub open spec fn effective_confdir(confdir: Option<Seq<char>>, config_path: Seq<char>) -> Option<Seq<char>> {
    match confdir {
        Some(d) => Some(d),
        None => path_parent(config_path),
    }
}

/// The log file in force: a relative one is taken in `logdir` where one is
/// configured, else in the configuration directory.
pub open spec fn resolved_log_file(log_file: Option<Seq<char>>, logdir: Option<Seq<char>>, confdir: Seq<char>) -> Option<
    Seq<char>,
> {
    match log_file {
        Some(f) => if path_absolute(f) {
            Some(f)
        } else {
            match logdir {
                Some(l) => Some(path_joined(l, f)),
                None => Some(path_joined(confdir, f)),
            }
        },
        None => None,
    }
}

fn resolve_all(confdir: &str, files: &Vec<String>) -> (r: Vec<String>)
    ensures
        str_views(r@) == str_views(files@).map_values(|p: Seq<char>| resolved_path(confdir@, p)),
{
    let ghost fv = str_views(files@);
    let mut r: Vec<String> = Vec::new();
    let mut i: usize = 0;
    while i < files.len()
        invariant
            i <= files@.len(),
            fv == str_views(files@),
            fv.len() == files@.len(),
            str_views(r@) == fv.take(i as int).map_values(|p: Seq<char>| resolved_path(confdir@, p)),
        decreases files.len() - i,
    {
        let f = files[i].as_str();
        let x = if crate::bindings::is_absolute_path(f) {
            files[i].clone()
        } else {
            crate::bindings::join_path(confdir, f)
        };
        assert(x@ == resolved_path(confdir@, fv[i as int]));
        let ghost before = r@;
        r.push(x);
        assert(str_views(r@) =~= str_views(before).push(x@));
        assert(fv.take(i + 1).map_values(|p: Seq<char>| resolved_path(confdir@, p)) =~= fv.take(i as int).map_values(
            |p: Seq<char>| resolved_path(confdir@, p),
        ).push(resolved_path(confdir@, fv[i as int])));
        i += 1;
    }
    assert(fv.take(fv.len() as int) =~= fv);
    r
}

impl Config {
    /// Settles the paths of a configuration read from `config_path`: the
    /// configuration directory defaults to the file's directory, and the
    /// actions, filter, trust and log files are taken relative to it (the log
    /// file relative to `logdir` where one is set).
    pub fn resolve_paths(&mut self, config_path: &str)
        ensures
            opt_view(final(self).confdir) == effective_confdir(opt_view(old(self).confdir), config_path@),
            match effective_confdir(opt_view(old(self).confdir), config_path@) {
                Some(d) => {
                    &&& str_views(final(self).actions_files@) == str_views(old(self).actions_files@).map_values(
                        |p: Seq<char>| resolved_path(d, p),
                    )
                    &&& str_views(final(self).filter_files@) == str_views(old(self).filter_files@).map_values(
                        |p: Seq<char>| resolved_path(d, p),
                    )
                    &&& str_views(final(self).trust_files@) == str_views(old(self).trust_files@).map_values(
                        |p: Seq<char>| resolved_path(d, p),
                    )
                    &&& opt_view(final(self).log_file) == resolved_log_file(
                        opt_view(old(self).log_file),
                        opt_view(old(self).logdir),
                        d,
                    )
                },
                None => {
                    &&& final(self).actions_files@ == old(self).actions_files@
                    &&& final(self).filter_files@ == old(self).filter_files@
                    &&& final(self).trust_files@ == old(self).trust_files@
                    &&& final(self).log_file == old(self).log_file
                },
            },
            final(self).logdir == old(self).logdir,
            final(self).listen_addresses == old(self).listen_addresses,
            final(self).url_actions == old(self).url_actions,
            final(self).forward_specs == old(self).forward_specs,
    {
        if self.confdir.is_none() {
            self.confdir = crate::bindings::parent_path(config_path);
        }
        let confdir = match &self.confdir {
            Some(d) => d.clone(),
            None => {
                return;
            },
        };
        let d = confdir.as_str();
        self.actions_files = resolve_all(d, &self.actions_files);
        self.filter_files = resolve_all(d, &self.filter_files);
        self.trust_files = resolve_all(d, &self.trust_files);
        let new_log = match &self.log_file {
            Some(f) => {
                if crate::bindings::is_absolute_path(f.as_str()) {
                    Some(f.clone())
                } else {
                    match &self.logdir {
                        Some(l) => Some(crate::bindings::join_path(l.as_str(), f.as_str())),
                        None => Some(crate::bindings::join_path(d, f.as_str())),
                    }
                }
            },
            None => None,
        };
        self.log_file = new_log;
    }
}

} // verus!

//! Game-server presence monitor: address rendering, status formatting and
//! the decisions of the periodic monitoring loop, all verified.
mod address;
mod config;
mod monitor;
mod names;
mod presence;
mod text;

pub use address::{
    address_text, hex_list, hex_text, host_text, ip_text, longest_zero_run, v4_text, v6_text,
    zero_run, DomainOrIp, IpAddr,
};
pub use config::{Config, RichPresenceHandler};
pub use monitor::{
    action_of, lemma_loop_publishes_every_tick, phase_after_sample, phase_after_wait, published_for, run_ticks, update_view, Action,
    Monitor, Phase,
};
pub use names::{
    entries_ordered, insert_entry, keyed, lemma_sort_by_key_order_independent,
    lemma_sort_by_key_sorted_permutation, lemma_sort_entries_sorted_permutation, lower_of,
    name_key, sort_by_key, sort_by_keys, sort_by_keys_spec, sort_entries, sort_names, text_lt,
    with_name_keys,
};
pub use presence::{
    contains_text, counts_text, format_presence, lemma_failure_hides_reason,
    lemma_format_presence_deterministic, lemma_names_sorted_when_online,
    lemma_no_names_when_nobody_online, lemma_text_independent_of_sample_order, names_view, offline_text, online_text,
    outcome_from_status, presence_text, status_of, FailureKind, PresenceUpdate, SampleOutcome,
    StatusTag, Target,
};
pub use text::{decimal_string, decimal_text, join_commas, join_with_commas};

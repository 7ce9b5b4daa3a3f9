//! The dispatch core of a rule-based proxy, verified with Verus.
//!
//! `trie` holds the domain trie that routing rules are matched with, over the
//! grammar of `domain` and the matching order of `matching`. `tracker` meters
//! connections and lets them be closed from outside. `dispatcher` holds the
//! decisions of stream and packet dispatch. `trusted` lists what is believed
//! of other crates without proof.

pub mod chain;
pub mod dispatcher;
pub mod domain;
pub mod interface;
pub mod keys;
pub mod matching;
pub mod session;
pub mod tracker;
pub mod trie;
pub mod trusted;

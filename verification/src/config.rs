//! The compute-instance configuration as the catalog sees it: either the
//! local default, or the configuration text the SQL layer produced. The
//! catalog itself never interprets the text; it only stores it in the
//! nullable `config` column and hands it back, with an absent column read as
//! the local default.

use vstd::prelude::*;

verus! {

/// The configuration of one compute instance. `Custom` carries the
/// serialized configuration text verbatim; it never holds the text that
/// stands for the local default.
#[derive(Debug, PartialEq, Eq)]
pub enum ComputeInstanceConfig {
    /// The local default: an instance hosted in-process.
    Local,
    /// Any other configuration, as its serialized text.
    Custom(String),
}

/// The column text standing for the local default: the tagged textual form
/// of the variant name, `"Local"` in quotes.
pub open spec fn local_config_text() -> Seq<char> {
    seq!['"', 'L', 'o', 'c', 'a', 'l', '"']
}

impl ComputeInstanceConfig {
    /// The column text this configuration is stored as.
    pub open spec fn text(self) -> Seq<char> {
        match self {
            ComputeInstanceConfig::Local => local_config_text(),
            ComputeInstanceConfig::Custom(s) => s@,
        }
    }

    /// A sound configuration: a custom text is never the local default's.
    pub open spec fn wf(self) -> bool {
        match self {
            ComputeInstanceConfig::Local => true,
            ComputeInstanceConfig::Custom(s) => s@ != local_config_text(),
        }
    }

    /// Encodes this configuration into its column text.
    pub fn encode(&self) -> (r: String)
        ensures
            r@ == self.text(),
    {
        match self {
            ComputeInstanceConfig::Local => {
                proof {
                    reveal_strlit("\"Local\"");
                }
                let s = String::from_str("\"Local\"");
                proof {
                    assert(s@ =~= local_config_text());
                }
                s
            }
            ComputeInstanceConfig::Custom(s) => s.clone(),
        }
    }

    /// Decodes a column value: an absent column or the local default's text
    /// reads as `Local`, anything else as `Custom` verbatim.
    pub fn decode(stored: Option<&String>) -> (r: ComputeInstanceConfig)
        ensures
            r.wf(),
            match stored {
                None => r is Local,
                Some(s) => if s@ == local_config_text() {
                    r is Local
                } else {
                    r matches ComputeInstanceConfig::Custom(c) && c@ == s@
                },
            },
    {
        match stored {
            None => ComputeInstanceConfig::Local,
            Some(s) => {
                proof {
                    reveal_strlit("\"Local\"");
                }
                if crate::text::str_eq_string("\"Local\"", s) {
                    proof {
                        assert(s@ =~= local_config_text());
                    }
                    ComputeInstanceConfig::Local
                } else {
                    proof {
                        assert("\"Local\""@ =~= local_config_text());
                    }
                    ComputeInstanceConfig::Custom(s.clone())
                }
            }
        }
    }
}

/// Law: the configuration codec round-trips — decoding a stored encoding of
/// any sound configuration yields that configuration back. (A `Custom` text
/// equal to the local default's column text is the one excluded input: it
/// decodes as `Local` by design.)
pub proof fn lemma_config_codec_roundtrip(c: ComputeInstanceConfig, d: ComputeInstanceConfig)
    requires
        c.wf(),
        match Some(c.text()) {
            None => d is Local,
            Some(s) => if s == local_config_text() {
                d is Local
            } else {
                d matches ComputeInstanceConfig::Custom(t) && t@ == s
            },
        },
    ensures
        d.text() == c.text(),
        d is Local <==> c is Local,
{
}

} // verus!

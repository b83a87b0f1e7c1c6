//! Identifier types for catalog objects and dataflow components, with their
//! external text form: a single-letter namespace prefix followed by the
//! decimal value (`s7`, `u12`, `t3`), or the decimal partition number.

use vstd::prelude::*;

use crate::error::Error;
use crate::text::{
    dec_seq, dec_seq_signed, dec_val, is_numeral, parse_u64_bounded, u64_to_string,
};

verus! {

/// The identifier for a global dataflow or catalog object.
///
/// Only the `System` and `User` variants ever cross the persistence
/// boundary; `Transient` and `Explain` are in-memory only.
#[derive(Clone, Copy, Debug, PartialEq, Eq, Hash, Structural)]
pub enum GlobalId {
    /// System namespace.
    System(u64),
    /// User namespace.
    User(u64),
    /// Transient namespace.
    Transient(u64),
    /// Dummy id for a query being explained.
    Explain,
}

impl GlobalId {
    /// Reports whether this ID is in the system namespace.
    pub fn is_system(&self) -> (r: bool)
        ensures
            r == self is System,
    {
        matches!(self, GlobalId::System(_))
    }

    /// Reports whether this ID is in the user namespace.
    pub fn is_user(&self) -> (r: bool)
        ensures
            r == self is User,
    {
        matches!(self, GlobalId::User(_))
    }

    /// Reports whether this ID is in the transient namespace.
    pub fn is_transient(&self) -> (r: bool)
        ensures
            r == self is Transient,
    {
        matches!(self, GlobalId::Transient(_))
    }

    /// The external text form of a global identifier.
    pub open spec fn text(self) -> Seq<char> {
        match self {
            GlobalId::System(n) => seq!['s'] + dec_seq(n as nat),
            GlobalId::User(n) => seq!['u'] + dec_seq(n as nat),
            GlobalId::Transient(n) => seq!['t'] + dec_seq(n as nat),
            GlobalId::Explain => "Explained Query"@,
        }
    }

    /// Renders this identifier in its external text form.
    pub fn to_text(&self) -> (s: String)
        ensures
            s@ == self.text(),
    {
        match self {
            GlobalId::System(n) => {
                proof {
                    reveal_strlit("s");
                }
                let mut s = String::from_str("s");
                let digits = u64_to_string(*n);
                s.append(digits.as_str());
                proof {
                    assert(s@ =~= self.text());
                }
                s
            }
            GlobalId::User(n) => {
                proof {
                    reveal_strlit("u");
                }
                let mut s = String::from_str("u");
                let digits = u64_to_string(*n);
                s.append(digits.as_str());
                proof {
                    assert(s@ =~= self.text());
                }
                s
            }
            GlobalId::Transient(n) => {
                proof {
                    reveal_strlit("t");
                }
                let mut s = String::from_str("t");
                let digits = u64_to_string(*n);
                s.append(digits.as_str());
                proof {
                    assert(s@ =~= self.text());
                }
                s
            }
            GlobalId::Explain => String::from_str("Explained Query"),
        }
    }

    /// The identifier a text form stands for, if any: a `s`/`u`/`t` prefix
    /// followed by a decimal numeral in `u64` range.
    pub open spec fn parse_spec(s: Seq<char>) -> Option<GlobalId> {
        if s.len() < 2 {
            None
        } else {
            let digits = s.subrange(1, s.len() as int);
            if !(is_numeral(digits) && dec_val(digits) <= u64::MAX) {
                None
            } else if s[0] == 's' {
                Some(GlobalId::System(dec_val(digits) as u64))
            } else if s[0] == 'u' {
                Some(GlobalId::User(dec_val(digits) as u64))
            } else if s[0] == 't' {
                Some(GlobalId::Transient(dec_val(digits) as u64))
            } else {
                None
            }
        }
    }

    /// Parses the external text form of a global identifier.
    pub fn parse(s: &str) -> (r: Result<GlobalId, Error>)
        ensures
            r is Ok <==> GlobalId::parse_spec(s@) is Some,
            r is Ok ==> GlobalId::parse_spec(s@) == Some(r->Ok_0),
    {
        let n = s.unicode_len();
        if n < 2 {
            return Err(Error::Codec(String::from_str("couldn't parse id")));
        }
        let digits = s.substring_char(1, n);
        let val = match parse_u64_bounded(digits, u64::MAX) {
            Some(v) => v,
            None => {
                return Err(Error::Codec(String::from_str("couldn't parse id")));
            }
        };
        let c0 = s.get_char(0);
        if c0 == 's' {
            Ok(GlobalId::System(val))
        } else if c0 == 'u' {
            Ok(GlobalId::User(val))
        } else if c0 == 't' {
            Ok(GlobalId::Transient(val))
        } else {
            Err(Error::Codec(String::from_str("couldn't parse id")))
        }
    }
}

/// The identifier for a local component of a dataflow.
#[derive(Clone, Copy, Debug, PartialEq, Eq, Hash, Structural)]
pub struct LocalId(u64);

impl LocalId {
    /// The numeric value this local identifier carries.
    pub closed spec fn spec_value(&self) -> u64 {
        self.0
    }

    /// Constructs a new local identifier. It is the caller's responsibility
    /// to provide a unique `v`.
    pub fn new(v: u64) -> (r: LocalId)
        ensures
            r.spec_value() == v,
    {
        LocalId(v)
    }
}

/// An opaque identifier for a dataflow component, either local or global.
#[derive(Clone, Copy, Debug, PartialEq, Eq, Hash, Structural)]
pub enum Id {
    /// An identifier that refers to a local component of a dataflow.
    Local(LocalId),
    /// An identifier that refers to a global dataflow.
    Global(GlobalId),
}

/// The primary key of a database row.
#[derive(Clone, Copy, Debug, PartialEq, Eq, Hash, Structural)]
pub struct DatabaseId(pub i64);

/// The primary key of a schema row.
#[derive(Clone, Copy, Debug, PartialEq, Eq, Hash, Structural)]
pub struct SchemaId(pub i64);

/// Unique identifier for an instantiation of a source.
#[derive(Clone, Copy, Debug, PartialEq, Eq, Hash, Structural)]
pub struct SourceInstanceId {
    /// The ID of the source, shared across all instances.
    pub source_id: GlobalId,
    /// The ID of the timely dataflow containing this instantiation of this
    /// source.
    pub dataflow_id: usize,
}

/// Unique identifier for each part of a whole source: a Kafka partition
/// number, or `NonePartition` for sources that have no notion of
/// partitioning (e.g. file sources).
#[derive(Clone, Copy, Debug, PartialEq, Eq, Hash, Structural)]
pub enum PartitionId {
    Kafka(i32),
    NonePartition,
}

impl PartitionId {
    /// The external text form of a partition identifier: the decimal
    /// partition number, or the literal `none`.
    pub open spec fn text(self) -> Seq<char> {
        match self {
            PartitionId::Kafka(n) => dec_seq_signed(n as int),
            PartitionId::NonePartition => seq!['n', 'o', 'n', 'e'],
        }
    }

    /// Renders this partition identifier in its external text form.
    pub fn to_text(&self) -> (s: String)
        ensures
            s@ == self.text(),
    {
        match self {
            PartitionId::Kafka(n) => crate::text::i64_to_string(*n as i64),
            PartitionId::NonePartition => {
                proof {
                    reveal_strlit("none");
                }
                let s = String::from_str("none");
                proof {
                    assert(s@ =~= self.text());
                }
                s
            }
        }
    }

    /// The partition identifier a text form stands for, if any: the literal
    /// `none`, or a decimal numeral (optionally `-`-signed) in `i32` range.
    pub open spec fn parse_spec(s: Seq<char>) -> Option<PartitionId> {
        if s =~= seq!['n', 'o', 'n', 'e'] {
            Some(PartitionId::NonePartition)
        } else if s.len() >= 2 && s[0] == '-' {
            let digits = s.subrange(1, s.len() as int);
            if is_numeral(digits) && dec_val(digits) <= 0x8000_0000 {
                Some(PartitionId::Kafka((-(dec_val(digits) as int)) as i32))
            } else {
                None
            }
        } else if is_numeral(s) && dec_val(s) <= i32::MAX {
            Some(PartitionId::Kafka(dec_val(s) as i32))
        } else {
            None
        }
    }

    /// Parses the external text form of a partition identifier.
    pub fn parse(s: &str) -> (r: Result<PartitionId, Error>)
        ensures
            r is Ok <==> PartitionId::parse_spec(s@) is Some,
            r is Ok ==> PartitionId::parse_spec(s@) == Some(r->Ok_0),
    {
        let n = s.unicode_len();
        if n == 4 {
            let is_none = s.get_char(0) == 'n' && s.get_char(1) == 'o' && s.get_char(2) == 'n'
                && s.get_char(3) == 'e';
            if is_none {
                proof {
                    assert(s@ =~= seq!['n', 'o', 'n', 'e']);
                }
                return Ok(PartitionId::NonePartition);
            }
        }
        proof {
            assert(!(s@ =~= seq!['n', 'o', 'n', 'e']));
        }
        if n >= 2 && s.get_char(0) == '-' {
            let digits = s.substring_char(1, n);
            match parse_u64_bounded(digits, 0x8000_0000) {
                Some(v) => {
                    let neg: i64 = -(v as i64);
                    Ok(PartitionId::Kafka(neg as i32))
                }
                None => Err(Error::Codec(String::from_str("couldn't parse partition id"))),
            }
        } else {
            match parse_u64_bounded(s, 0x7fff_ffff) {
                Some(v) => Ok(PartitionId::Kafka(v as i32)),
                None => Err(Error::Codec(String::from_str("couldn't parse partition id"))),
            }
        }
    }
}

} // verus!

use vstd::prelude::*;
use crate::cursor::{ByteCursor, Outcome, done, failed};
use crate::enums::{HXAMetaDataType, meta_value_model};
use crate::error::HXAError;
use crate::laws::lemma_meta_lengths_agree;
use crate::model::{MetaEntry, MetaValue};
use crate::wire::{
    MAX_META_DEPTH, lemma_prepend_nothing, lemma_prepend_push, meta_at, meta_list_at, prepend,
};

verus! {

/// A named, typed metadata entry.
#[derive(Debug)]
pub struct HXAMeta {
    pub name: String,
    pub meta_type: HXAMetaDataType,
    /// The length that the stream declares for the entry.
    pub data_length: u32,
}

/// What a metadata entry holds.
pub open spec fn meta_model(m: HXAMeta) -> MetaEntry
    decreases m,
{
    MetaEntry {
        name: m.name@,
        value: meta_value_model(m.meta_type),
        declared_length: m.data_length,
    }
}

/// What a list of metadata entries holds, entry by entry.
pub open spec fn meta_list_model(l: Seq<HXAMeta>) -> Seq<MetaEntry>
    decreases l,
{
    Seq::new(
        l.len(),
        |i: int|
            if 0 <= i < l.len() {
                meta_model(l[i])
            } else {
                arbitrary()
            },
    )
}

impl View for HXAMeta {
    type V = MetaEntry;

    open spec fn view(&self) -> MetaEntry {
        meta_model(*self)
    }
}

/// The outcome that a decode of one entry reports with `r`, having left the
/// cursor at `end`.
pub open spec fn meta_outcome(r: Result<HXAMeta, HXAError>, end: int) -> Outcome<MetaEntry> {
    match r {
        Ok(m) => done(m@, end),
        Err(e) => failed(e, end),
    }
}

/// The outcome that a decode of a list of entries reports with `r`, having
/// left the cursor at `end`.
pub open spec fn meta_list_outcome(r: Result<Vec<HXAMeta>, HXAError>, end: int) -> Outcome<
    Seq<MetaEntry>,
> {
    match r {
        Ok(l) => done(meta_list_model(l@), end),
        Err(e) => failed(e, end),
    }
}

/// The model of a list with one more entry is the model of the list with the
/// model of the entry behind it.
pub proof fn lemma_meta_list_model_push(l: Seq<HXAMeta>, m: HXAMeta)
    ensures
        meta_list_model(l.push(m)) == meta_list_model(l).push(m@),
        meta_list_model(l).len() == l.len(),
{
    assert(meta_list_model(l.push(m)) =~= meta_list_model(l).push(m@));
}

impl HXAMeta {
    /// An entry that stands for nothing yet.
    pub fn new() -> (m: HXAMeta)
        ensures
            m@ == (MetaEntry {
                name: "MISSING NAME"@,
                value: MetaValue::Unknown,
                declared_length: 0,
            }),
    {
        HXAMeta {
            name: "MISSING NAME".to_owned(),
            meta_type: HXAMetaDataType::Unknown,
            data_length: 0,
        }
    }

    /// Decodes the entry at the cursor, following nested metadata at most
    /// `depth` levels down.
    pub fn decode(input: &mut ByteCursor, depth: u32) -> (r: Result<HXAMeta, HXAError>)
        ensures
            final(input).bytes() == old(input).bytes(),
            meta_at(old(input).bytes(), old(input).position(), depth as nat) == meta_outcome(
                r,
                final(input).position(),
            ),
        decreases depth, 0nat,
    {
        let name_length: u8 = input.read_u8()?;
        let name: String = input.read_utf8(name_length as usize)?;
        let tag: u8 = input.read_u8()?;
        let data_length: u32 = input.read_u32()?;
        let meta_type: HXAMetaDataType = match HXAMetaDataType::from(tag) {
            HXAMetaDataType::INT64 { .. } => HXAMetaDataType::INT64 {
                int_array: input.read_i64_array(data_length as u64)?,
            },
            HXAMetaDataType::DOUBLE { .. } => HXAMetaDataType::DOUBLE {
                double_array: input.read_u64_array(data_length as u64)?,
            },
            HXAMetaDataType::TEXT { .. } => HXAMetaDataType::TEXT {
                text: input.read_utf8(data_length as usize)?,
            },
            HXAMetaDataType::META { .. } => {
                if depth == 0 {
                    return Err(HXAError::RecursionLimitExceeded);
                }
                HXAMetaDataType::META {
                    meta_array: HXAMeta::decode_list(input, data_length, depth - 1)?,
                }
            },
            marker => marker,
        };
        Ok(HXAMeta { name, meta_type, data_length })
    }

    /// Decodes `count` entries, one behind the other, each following nested
    /// metadata at most `depth` levels down.
    pub fn decode_list(input: &mut ByteCursor, count: u32, depth: u32) -> (r: Result<
        Vec<HXAMeta>,
        HXAError,
    >)
        ensures
            final(input).bytes() == old(input).bytes(),
            meta_list_at(old(input).bytes(), old(input).position(), count as nat, depth as nat)
                == meta_list_outcome(r, final(input).position()),
        decreases depth, 1nat,
    {
        let ghost s = input.bytes();
        let ghost start = input.position();
        let mut entries: Vec<HXAMeta> = Vec::new();
        let mut i: u32 = 0;
        assert(meta_list_model(entries@) =~= Seq::empty());
        assert(Seq::<MetaEntry>::empty() + Seq::<MetaEntry>::empty() =~= Seq::<MetaEntry>::empty());
        while i < count
            invariant
                i <= count,
                s == old(input).bytes(),
                start == old(input).position(),
                input.bytes() == s,
                meta_list_at(s, start, count as nat, depth as nat) == prepend(
                    meta_list_model(entries@),
                    meta_list_at(s, input.position(), (count - i) as nat, depth as nat),
                ),
            decreases count - i,
        {
            let ghost rest = meta_list_at(
                s,
                meta_at(s, input.position(), depth as nat).end,
                (count - i - 1) as nat,
                depth as nat,
            );
            let ghost before = entries@;
            let entry: HXAMeta = HXAMeta::decode(input, depth)?;
            proof {
                lemma_prepend_push(meta_list_model(before), entry@, rest);
                lemma_meta_list_model_push(before, entry);
            }
            entries.push(entry);
            i = i + 1;
        }
        proof {
            lemma_prepend_nothing(meta_list_model(entries@), input.position());
        }
        Ok(entries)
    }

    /// Decodes the entry at the cursor into `self`. On failure `self` is left
    /// as it was.
    pub fn parse(&mut self, input: &mut ByteCursor) -> (r: Result<(), HXAError>)
        ensures
            final(input).bytes() == old(input).bytes(),
            match r {
                Ok(_) => meta_at(
                    old(input).bytes(),
                    old(input).position(),
                    MAX_META_DEPTH as nat,
                ) == done(final(self)@, final(input).position())
                    && final(self)@.lengths_agree(),
                Err(e) => meta_at(
                    old(input).bytes(),
                    old(input).position(),
                    MAX_META_DEPTH as nat,
                ) == failed::<MetaEntry>(e, final(input).position()) && *final(self) == *old(
                    self,
                ),
            },
    {
        match HXAMeta::decode(input, MAX_META_DEPTH) {
            Ok(entry) => {
                proof {
                    lemma_meta_lengths_agree(
                        old(input).bytes(),
                        old(input).position(),
                        MAX_META_DEPTH as nat,
                    );
                }
                *self = entry;
                Ok(())
            },
            Err(e) => Err(e),
        }
    }
}

} // verus!

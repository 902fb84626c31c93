//! The progression of the four playable characters.

use crate::accessor::{array_field, get_array, get_int, get_struct, int_field, struct_field};
use crate::error::{result_model, ErrorModel, ParsingError};
use crate::guid::{guid_eq, Guid};
use crate::property::{
    nodes_model, Document, DocumentModel, NodeModel, PropertyNode, StructModel, StructValue,
};
use crate::registry::{DRILLER, ENGINEER, GUNNER, MAX_LEVEL, PROMOTIONS, SCOUT, XP_TABLE};
use crate::search::{
    first_index, lemma_first_index_absent, lemma_first_index_found, lemma_first_index_sound,
};
use vstd::prelude::*;

verus! {

/// The progression of one character.
#[derive(Debug, Default, Clone, PartialEq, Eq)]
pub struct Rank {
    /// The experience gathered since the last retirement.
    pub xp: i32,
    /// How often the character has retired.
    pub times_retired: i32,
    /// The promotion label that belongs to `times_retired`.
    pub promotion: String,
}

/// The mathematical content of a [`Rank`].
pub ghost struct RankModel {
    pub xp: i32,
    pub times_retired: i32,
    pub promotion: Seq<char>,
}

impl View for Rank {
    type V = RankModel;

    open spec fn view(&self) -> RankModel {
        RankModel { xp: self.xp, times_retired: self.times_retired, promotion: self.promotion@ }
    }
}

/// The thresholds that lie above `xp`.
pub open spec fn above(xp: int) -> spec_fn(i32) -> bool {
    |threshold: i32| xp < threshold
}

impl Rank {
    /// The position in the promotion table for a retirement count: the count
    /// itself up to 18, and the last position for every count above.
    pub open spec fn promotion_index(times_retired: int) -> int {
        if times_retired > 18 {
            19
        } else {
            times_retired
        }
    }

    /// The rank with this experience and retirement count.
    pub open spec fn model(xp: i32, times_retired: i32) -> RankModel {
        RankModel {
            xp,
            times_retired,
            promotion: PROMOTIONS@[Self::promotion_index(times_retired as int)]@,
        }
    }

    /// The rank before anything is known of a character.
    pub open spec fn unset() -> RankModel {
        RankModel { xp: 0, times_retired: 0, promotion: Seq::empty() }
    }

    /// The level and the progress within it for an amount of experience: the
    /// level is the position of the first threshold above the experience, and
    /// the progress is the experience beyond the threshold before it. At or
    /// beyond the last threshold it is the highest level with no progress.
    pub open spec fn level_spec(xp: int) -> (int, int) {
        match first_index(XP_TABLE@, above(xp)) {
            Some(i) => (i, xp - XP_TABLE@[i - 1]),
            None => (MAX_LEVEL as int, 0),
        }
    }

    /// The rank with this experience and retirement count; its promotion
    /// label is taken from the promotion table.
    pub fn new(xp: i32, times_retired: i32) -> (rank: Self)
        requires
            times_retired >= 0,
        ensures
            rank@ == Self::model(xp, times_retired),
    {
        let promotion = if times_retired > 18 {
            PROMOTIONS[19]
        } else {
            PROMOTIONS[times_retired as usize]
        }.to_owned();
        Rank { xp, times_retired, promotion }
    }

    /// The level that the experience amounts to, and the progress within it.
    pub fn xp_to_level(&self) -> (r: (i32, i32))
        requires
            self.xp >= 0,
        ensures
            (r.0 as int, r.1 as int) == Self::level_spec(self.xp as int),
    {
        let mut idx: usize = 0;
        while idx < 25
            invariant
                idx <= 25,
                self.xp >= 0,
                forall|j: int| 0 <= j < idx ==> !above(self.xp as int)(#[trigger] XP_TABLE@[j]),
            decreases 25 - idx,
        {
            if self.xp < XP_TABLE[idx] {
                proof {
                    assert(above(self.xp as int)(XP_TABLE@[idx as int]));
                    lemma_first_index_found(XP_TABLE@, above(self.xp as int), idx as int);
                    assert(idx > 0) by {
                        assert(XP_TABLE@[0] == 0);
                    }
                    assert(!above(self.xp as int)(XP_TABLE@[idx - 1]));
                }
                return (idx as i32, self.xp - XP_TABLE[idx - 1]);
            }
            idx += 1;
        }
        proof {
            lemma_first_index_absent(XP_TABLE@, above(self.xp as int));
        }
        (MAX_LEVEL, 0)
    }
}

/// **Level boundaries.** For experience that is not negative, the level
/// lies between 1 and the highest level and the progress is not negative.
/// Below the last threshold the experience lies between the threshold of the
/// level and the next one, and the progress is what it exceeds the first of
/// these by; from the last threshold on it is the highest level with no
/// progress.
pub proof fn law_level(xp: int)
    requires
        0 <= xp,
    ensures
        1 <= Rank::level_spec(xp).0 <= MAX_LEVEL,
        0 <= Rank::level_spec(xp).1,
        xp < XP_TABLE@[24] ==> {
            let (level, progress) = Rank::level_spec(xp);
            &&& level <= 24
            &&& XP_TABLE@[level - 1] <= xp < XP_TABLE@[level]
            &&& progress == xp - XP_TABLE@[level - 1]
        },
        xp >= XP_TABLE@[24] ==> Rank::level_spec(xp) == (MAX_LEVEL as int, 0int),
{
    lemma_first_index_sound(XP_TABLE@, above(xp));
    match first_index(XP_TABLE@, above(xp)) {
        Some(i) => {
            assert(above(xp)(XP_TABLE@[i]));
            assert(i > 0) by {
                assert(XP_TABLE@[0] == 0);
            }
            assert(!above(xp)(XP_TABLE@[i - 1]));
            if xp >= XP_TABLE@[24] {
                assert(XP_TABLE@[i] <= XP_TABLE@[24]) by {
                    lemma_table_rises(i, 24);
                }
            }
        },
        None => {
            assert(!above(xp)(XP_TABLE@[24]));
        },
    }
}

/// The thresholds rise.
pub proof fn lemma_table_rises(i: int, j: int)
    requires
        0 <= i <= j < 25,
    ensures
        XP_TABLE@[i] <= XP_TABLE@[j],
    decreases j - i,
{
    if i < j {
        lemma_table_rises(i, j - 1);
        assert(XP_TABLE@[j - 1] <= XP_TABLE@[j]);
    }
}

/// The progression of the four characters of a document.
#[derive(Debug, Default, Clone, PartialEq, Eq)]
pub struct Characters {
    pub engineer: Rank,
    pub driller: Rank,
    pub gunner: Rank,
    pub scout: Rank,
}

/// The mathematical content of a [`Characters`].
pub ghost struct CharactersModel {
    pub engineer: RankModel,
    pub driller: RankModel,
    pub gunner: RankModel,
    pub scout: RankModel,
}

impl View for Characters {
    type V = CharactersModel;

    open spec fn view(&self) -> CharactersModel {
        CharactersModel {
            engineer: self.engineer@,
            driller: self.driller@,
            gunner: self.gunner@,
            scout: self.scout@,
        }
    }
}

/// What one element of the character list says: nothing where it is not a
/// custom struct; otherwise the identifier in its field `SavegameID` and the
/// integers in its fields `XP` and `TimesRetired`, or the first failure among
/// these three reads, taken in this order.
pub open spec fn character_record(node: NodeModel) -> Result<
    Option<(Seq<u8>, i32, i32)>,
    ErrorModel,
> {
    match node {
        NodeModel::StructProperty(StructModel::CustomStruct(fields)) => match struct_field(
            fields,
            "SavegameID"@,
        ) {
            Err(e) => Err(e),
            Ok(StructModel::Guid(guid)) => match int_field(fields, "XP"@) {
                Err(e) => Err(e),
                Ok(xp) => match int_field(fields, "TimesRetired"@) {
                    Err(e) => Err(e),
                    Ok(times_retired) => Ok(Some((guid, xp, times_retired))),
                },
            },
            Ok(_) => Err(ErrorModel::FailedCastError("Guid"@)),
        },
        _ => Ok(None),
    }
}

impl CharactersModel {
    /// The four characters before any record is read.
    pub open spec fn unset() -> CharactersModel {
        CharactersModel {
            engineer: Rank::unset(),
            driller: Rank::unset(),
            gunner: Rank::unset(),
            scout: Rank::unset(),
        }
    }

    /// These characters after a record: the character that the record's
    /// identifier names takes the record's rank, and a record that names none
    /// of the four changes nothing.
    pub open spec fn with_record(self, record: (Seq<u8>, i32, i32)) -> CharactersModel {
        let rank = Rank::model(record.1, record.2);
        if record.0 == ENGINEER@ {
            CharactersModel { engineer: rank, ..self }
        } else if record.0 == DRILLER@ {
            CharactersModel { driller: rank, ..self }
        } else if record.0 == GUNNER@ {
            CharactersModel { gunner: rank, ..self }
        } else if record.0 == SCOUT@ {
            CharactersModel { scout: rank, ..self }
        } else {
            self
        }
    }
}

impl Characters {
    /// The characters after the first `count` elements of the character list
    /// were read in order, or the failure of the first element that cannot be
    /// read.
    pub open spec fn after(records: Seq<NodeModel>, count: nat) -> Result<
        CharactersModel,
        ErrorModel,
    >
        decreases count,
    {
        if count == 0 {
            Ok(CharactersModel::unset())
        } else {
            match (Self::after(records, (count - 1) as nat), character_record(records[count - 1])) {
                (Err(e), _) => Err(e),
                (Ok(_), Err(e)) => Err(e),
                (Ok(characters), Ok(None)) => Ok(characters),
                (Ok(characters), Ok(Some(record))) => Ok(characters.with_record(record)),
            }
        }
    }

    /// Whether no retirement count is negative among the first `count`
    /// elements of the character list, as far as they are read.
    pub open spec fn counts_valid(records: Seq<NodeModel>, count: nat) -> bool
        decreases count,
    {
        if count == 0 {
            true
        } else {
            &&& Self::counts_valid(records, (count - 1) as nat)
            &&& (Self::after(records, (count - 1) as nat) is Ok ==> (character_record(
                records[count - 1],
            ) matches Ok(Some(record)) ==> record.2 >= 0))
        }
    }

    /// The characters of a document: the elements of the top-level array
    /// `CharacterSaves`, read in order.
    pub open spec fn read(doc: DocumentModel) -> Result<CharactersModel, ErrorModel> {
        match array_field(doc.properties, "CharacterSaves"@) {
            Err(e) => Err(e),
            Ok(records) => Self::after(records, records.len()),
        }
    }

    /// Whether the characters of a document can be read: no record that is
    /// read on the way holds a negative retirement count, for which the
    /// promotion table has no label.
    pub open spec fn readable(doc: DocumentModel) -> bool {
        match array_field(doc.properties, "CharacterSaves"@) {
            Err(_) => true,
            Ok(records) => Self::counts_valid(records, records.len()),
        }
    }

    /// Whether the characters of a document can be read.
    pub fn can_read(doc: &Document) -> (ok: bool)
        ensures
            ok == Self::readable(doc@),
    {
        let records = match get_array(&doc.properties, "CharacterSaves") {
            Ok(records) => records,
            Err(_) => {
                return true;
            },
        };
        let ghost model = nodes_model(records@);
        let mut i: usize = 0;
        while i < records.len()
            invariant
                i <= records.len(),
                model == nodes_model(records@),
                array_field(doc@.properties, "CharacterSaves"@) == Ok::<
                    Seq<NodeModel>,
                    ErrorModel,
                >(model),
                Self::after(model, i as nat) is Ok,
                Self::counts_valid(model, i as nat),
            decreases records.len() - i,
        {
            match read_record(&records[i]) {
                Err(_) => {
                    proof {
                        assert(Self::after(model, (i + 1) as nat) is Err);
                        assert(Self::counts_valid(model, (i + 1) as nat));
                        Self::lemma_failed_stays(model, (i + 1) as nat, model.len());
                    }
                    return true;
                },
                Ok(Some(record)) => {
                    if record.2 < 0 {
                        proof {
                            assert(!Self::counts_valid(model, (i + 1) as nat));
                            Self::lemma_invalid_stays(model, (i + 1) as nat, model.len());
                        }
                        return false;
                    }
                },
                Ok(None) => {},
            }
            i += 1;
        }
        true
    }

    /// Once an element has failed, the later ones are not read.
    pub proof fn lemma_failed_stays(records: Seq<NodeModel>, failed: nat, count: nat)
        requires
            Self::after(records, failed) is Err,
            Self::counts_valid(records, failed),
            failed <= count,
        ensures
            Self::after(records, count) == Self::after(records, failed),
            Self::counts_valid(records, count),
        decreases count,
    {
        if failed < count {
            Self::lemma_failed_stays(records, failed, (count - 1) as nat);
        }
    }

    /// A negative retirement count among the elements that are read makes
    /// the whole list unreadable.
    pub proof fn lemma_invalid_stays(records: Seq<NodeModel>, invalid: nat, count: nat)
        requires
            !Self::counts_valid(records, invalid),
            invalid <= count,
        ensures
            !Self::counts_valid(records, count),
        decreases count,
    {
        if invalid < count {
            Self::lemma_invalid_stays(records, invalid, (count - 1) as nat);
        }
    }

    /// Reads the characters of a document.
    pub fn from_gvas(doc: &Document) -> (r: Result<Self, ParsingError>)
        requires
            Self::readable(doc@),
        ensures
            result_model(r) == Self::read(doc@),
    {
        let records = get_array(&doc.properties, "CharacterSaves")?;
        let ghost model = nodes_model(records@);
        let mut characters = Characters {
            engineer: Rank { xp: 0, times_retired: 0, promotion: String::new() },
            driller: Rank { xp: 0, times_retired: 0, promotion: String::new() },
            gunner: Rank { xp: 0, times_retired: 0, promotion: String::new() },
            scout: Rank { xp: 0, times_retired: 0, promotion: String::new() },
        };
        let mut i: usize = 0;
        while i < records.len()
            invariant
                i <= records.len(),
                model == nodes_model(records@),
                array_field(doc@.properties, "CharacterSaves"@) == Ok::<
                    Seq<NodeModel>,
                    ErrorModel,
                >(model),
                Self::counts_valid(model, model.len()),
                Self::after(model, i as nat) == Ok::<CharactersModel, ErrorModel>(characters@),
            decreases records.len() - i,
        {
            match read_record(&records[i]) {
                Err(e) => {
                    proof {
                        Self::lemma_valid_before(model, (i + 1) as nat, model.len());
                        assert(Self::after(model, (i + 1) as nat) == Err::<
                            CharactersModel,
                            ErrorModel,
                        >(e@));
                        Self::lemma_failed_stays(model, (i + 1) as nat, model.len());
                    }
                    return Err(e);
                },
                Ok(Some(record)) => {
                    proof {
                        Self::lemma_valid_before(model, (i + 1) as nat, model.len());
                    }
                    let rank = Rank::new(record.1, record.2);
                    if guid_eq(&record.0, &ENGINEER) {
                        characters.engineer = rank;
                    } else if guid_eq(&record.0, &DRILLER) {
                        characters.driller = rank;
                    } else if guid_eq(&record.0, &GUNNER) {
                        characters.gunner = rank;
                    } else if guid_eq(&record.0, &SCOUT) {
                        characters.scout = rank;
                    }
                },
                Ok(None) => {},
            }
            i += 1;
        }
        Ok(characters)
    }

    /// What holds of a whole list holds of each of its beginnings.
    pub proof fn lemma_valid_before(records: Seq<NodeModel>, before: nat, count: nat)
        requires
            Self::counts_valid(records, count),
            before <= count,
        ensures
            Self::counts_valid(records, before),
        decreases count,
    {
        if before < count {
            Self::lemma_valid_before(records, before, (count - 1) as nat);
        }
    }
}

fn read_record(node: &PropertyNode) -> (r: Result<Option<(Guid, i32, i32)>, ParsingError>)
    ensures
        match r {
            Ok(Some(record)) => character_record(node@) == Ok::<
                Option<(Seq<u8>, i32, i32)>,
                ErrorModel,
            >(Some((record.0@, record.1, record.2))),
            Ok(None) => character_record(node@) == Ok::<Option<(Seq<u8>, i32, i32)>, ErrorModel>(
                None,
            ),
            Err(e) => character_record(node@) == Err::<Option<(Seq<u8>, i32, i32)>, ErrorModel>(
                e@,
            ),
        },
{
    match node {
        PropertyNode::StructProperty(StructValue::CustomStruct(fields)) => {
            let guid = match get_struct(fields, "SavegameID")? {
                StructValue::Guid(guid) => *guid,
                _ => {
                    return Err(ParsingError::failed_cast("Guid"));
                },
            };
            let xp = get_int(fields, "XP")?;
            let times_retired = get_int(fields, "TimesRetired")?;
            Ok(Some((guid, xp, times_retired)))
        },
        _ => Ok(None),
    }
}

} // verus!

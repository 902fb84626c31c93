//! The domain views of a document, and the writer that patches them back.

pub mod brewing;
pub mod dwarfs;
pub mod forge;
pub mod minerals;
pub mod miscellaneous;

use self::brewing::Brewing;
use self::dwarfs::{Characters, CharactersModel};
use self::forge::{Forge, ForgeModel};
use self::minerals::Minerals;
use self::miscellaneous::Miscellaneous;
use crate::accessor::{field_index, get_mut, get_spec};
use crate::error::{result_model, ErrorModel, ParsingError};
use crate::guid::Guid;
use crate::property::{Document, DocumentModel, FloatLeaf, NodeKind, NodeModel, PropertyNode};
use crate::registry::{
    BARLEY_BULB, BISMOR, BLANK_CORES, CROPPA, DATA_CELLS, ENOR_PEARL, ERROR_CUBES, JADIZ, MAGNITE,
    MALT_STAR, PHAZYONITE, STARCH_NUT, UMANITE, YEAST_CONE,
};
use crate::resources::{
    get_owned_resources_mut, owned_resources, resource_entries, set_resources,
    with_resource_entries, write_resources, writes_model,
};
use vstd::prelude::*;

verus! {

/// All the domain views of one document.
#[derive(Debug, Default, Clone, PartialEq, Eq)]
pub struct SaveFile {
    pub minerals: Minerals,
    pub brewing: Brewing,
    pub miscellaneous: Miscellaneous,
    pub dwarfs: Characters,
    pub forge: Forge,
}

/// The mathematical content of a [`SaveFile`].
pub ghost struct SaveFileModel {
    pub minerals: Minerals,
    pub brewing: Brewing,
    pub miscellaneous: Miscellaneous,
    pub dwarfs: CharactersModel,
    pub forge: ForgeModel,
}

impl View for SaveFile {
    type V = SaveFileModel;

    open spec fn view(&self) -> SaveFileModel {
        SaveFileModel {
            minerals: self.minerals,
            brewing: self.brewing,
            miscellaneous: self.miscellaneous,
            dwarfs: self.dwarfs@,
            forge: self.forge@,
        }
    }
}

/// A list of fields after the integer field called `name` was overwritten
/// with `value`, and whether that succeeded: it fails, and changes nothing,
/// where no field has the name or the first one that has it is no integer.
pub open spec fn write_int(fields: Seq<(Seq<char>, NodeModel)>, name: Seq<char>, value: i32) -> (
    Seq<(Seq<char>, NodeModel)>,
    Result<(), ErrorModel>,
) {
    match get_spec(fields, name, NodeKind::IntProperty) {
        Err(e) => (fields, Err(e)),
        Ok(_) => (
            fields.update(
                field_index(fields, name)->Some_0,
                (name, NodeModel::IntProperty(value)),
            ),
            Ok(()),
        ),
    }
}

impl SaveFileModel {
    /// The resource quantities that the writer owns, each under its
    /// identifier, in the order in which they are written.
    pub open spec fn resource_writes(self) -> Seq<(Guid, FloatLeaf)> {
        seq![
            (MAGNITE, self.minerals.magnite),
            (BISMOR, self.minerals.bismor),
            (CROPPA, self.minerals.croppa),
            (UMANITE, self.minerals.umanite),
            (JADIZ, self.minerals.jadiz),
            (ENOR_PEARL, self.minerals.enor_pearl),
            (STARCH_NUT, self.brewing.starch_nut),
            (YEAST_CONE, self.brewing.yeast_cone),
            (MALT_STAR, self.brewing.malt_star),
            (BARLEY_BULB, self.brewing.barley_bulb),
            (ERROR_CUBES, self.miscellaneous.error_cubes),
            (DATA_CELLS, self.miscellaneous.data_cells),
            (BLANK_CORES, self.miscellaneous.blank_cores),
            (PHAZYONITE, self.miscellaneous.phazyonite),
        ]
    }

    /// The document after these views were written into it, and whether the
    /// writer succeeded. The resource inventory is resolved first; then the
    /// resource quantities are written in order; then the top-level integers
    /// `Credits` and `PerkPoints`. The first failure ends the writing, and
    /// what was written before it stays written.
    pub open spec fn saved(self, doc: DocumentModel) -> (DocumentModel, Result<(), ErrorModel>) {
        match owned_resources(doc) {
            Err(e) => (doc, Err(e)),
            Ok(_) => {
                let (entries, resources_outcome) = write_resources(
                    resource_entries(doc)->Ok_0,
                    writes_model(self.resource_writes()),
                );
                let with_resources = with_resource_entries(doc, entries);
                let (with_credits, credits_outcome) = write_int(
                    with_resources.properties,
                    "Credits"@,
                    self.miscellaneous.credits,
                );
                let (with_perk_points, perk_points_outcome) = write_int(
                    with_credits,
                    "PerkPoints"@,
                    self.miscellaneous.perk_points,
                );
                if resources_outcome is Err {
                    (with_resources, resources_outcome)
                } else if credits_outcome is Err {
                    (with_resources, credits_outcome)
                } else {
                    (
                        DocumentModel { header: doc.header, properties: with_perk_points },
                        perk_points_outcome,
                    )
                }
            },
        }
    }
}

impl SaveFile {
    /// The views of a document: minerals, brewing, miscellaneous and
    /// characters, read in this order, and no schematics. The first failure is
    /// the result.
    pub open spec fn read(doc: DocumentModel) -> Result<SaveFileModel, ErrorModel> {
        match Minerals::read(doc) {
            Err(e) => Err(e),
            Ok(minerals) => match Brewing::read(doc) {
                Err(e) => Err(e),
                Ok(brewing) => match Miscellaneous::read(doc) {
                    Err(e) => Err(e),
                    Ok(miscellaneous) => match Characters::read(doc) {
                        Err(e) => Err(e),
                        Ok(dwarfs) => Ok(
                            SaveFileModel {
                                minerals,
                                brewing,
                                miscellaneous,
                                dwarfs,
                                forge: ForgeModel {
                                    owned_schematics: Seq::empty(),
                                    forged_schematics: Seq::empty(),
                                },
                            },
                        ),
                    },
                },
            },
        }
    }

    /// Whether the views of a document can be read: where the reading gets
    /// as far as the characters, these can be read.
    pub open spec fn readable(doc: DocumentModel) -> bool {
        Minerals::read(doc) is Ok && Brewing::read(doc) is Ok && Miscellaneous::read(doc) is Ok
            ==> Characters::readable(doc)
    }

    /// Whether the views of a document can be read.
    pub fn can_read(doc: &Document) -> (ok: bool)
        ensures
            ok == Self::readable(doc@),
    {
        match (Minerals::from_gvas(doc), Brewing::from_gvas(doc), Miscellaneous::from_gvas(doc)) {
            (Ok(_), Ok(_), Ok(_)) => Characters::can_read(doc),
            _ => true,
        }
    }

    /// Reads the views of a document.
    pub fn from_gvas(doc: &Document) -> (r: Result<Self, ParsingError>)
        requires
            Self::readable(doc@),
        ensures
            result_model(r) == Self::read(doc@),
    {
        let minerals = Minerals::from_gvas(doc)?;
        let brewing = Brewing::from_gvas(doc)?;
        let miscellaneous = Miscellaneous::from_gvas(doc)?;
        let dwarfs = Characters::from_gvas(doc)?;
        Ok(SaveFile { minerals, brewing, miscellaneous, dwarfs, forge: Forge::default() })
    }

    /// Writes the minerals, the brewing ingredients and the miscellaneous
    /// view back into the positions of the document that they were read from.
    /// Nothing else in the document changes, and no entry is added, removed or
    /// moved.
    pub fn save(&self, doc: &mut Document) -> (r: Result<(), ParsingError>)
        ensures
            (final(doc)@, result_model(r)) == self@.saved(old(doc)@),
    {
        let writes: [(Guid, FloatLeaf); 14] = [
            (MAGNITE, self.minerals.magnite),
            (BISMOR, self.minerals.bismor),
            (CROPPA, self.minerals.croppa),
            (UMANITE, self.minerals.umanite),
            (JADIZ, self.minerals.jadiz),
            (ENOR_PEARL, self.minerals.enor_pearl),
            (STARCH_NUT, self.brewing.starch_nut),
            (YEAST_CONE, self.brewing.yeast_cone),
            (MALT_STAR, self.brewing.malt_star),
            (BARLEY_BULB, self.brewing.barley_bulb),
            (ERROR_CUBES, self.miscellaneous.error_cubes),
            (DATA_CELLS, self.miscellaneous.data_cells),
            (BLANK_CORES, self.miscellaneous.blank_cores),
            (PHAZYONITE, self.miscellaneous.phazyonite),
        ];
        assert(writes@ =~= self@.resource_writes());
        let resources = get_owned_resources_mut(doc)?;
        set_resources(resources, writes.as_slice())?;
        *get_mut(&mut doc.properties, "Credits", NodeKind::IntProperty)? =
            PropertyNode::IntProperty(self.miscellaneous.credits);
        *get_mut(&mut doc.properties, "PerkPoints", NodeKind::IntProperty)? =
            PropertyNode::IntProperty(self.miscellaneous.perk_points);
        Ok(())
    }
}

} // verus!

//! The two counters and the four remaining resource quantities.

use crate::accessor::{get_int, int_field};
use crate::error::{result_model, ErrorModel, ParsingError};
use crate::guid::Guid;
use crate::property::{Document, DocumentModel, FloatLeaf};
use crate::registry::{BLANK_CORES, DATA_CELLS, ERROR_CUBES, PHAZYONITE};
use crate::resources::{
    get_owned_resources, get_resources, guids_model, owned_resources, resource_values,
};
use vstd::prelude::*;

verus! {

/// The currency and perk point counters of a document, and the resource
/// quantities that belong to no other view.
#[derive(Debug, Clone, Copy, Default, PartialEq, Eq, Structural)]
pub struct Miscellaneous {
    pub credits: i32,
    pub perk_points: i32,
    pub error_cubes: FloatLeaf,
    pub data_cells: FloatLeaf,
    pub blank_cores: FloatLeaf,
    pub phazyonite: FloatLeaf,
}

impl View for Miscellaneous {
    type V = Miscellaneous;

    open spec fn view(&self) -> Miscellaneous {
        *self
    }
}

impl Miscellaneous {
    /// The identifiers under which the resource quantities are held, in the
    /// order in which they are read and written.
    pub open spec fn guids() -> Seq<Guid> {
        seq![ERROR_CUBES, DATA_CELLS, BLANK_CORES, PHAZYONITE]
    }

    /// The resource quantities in the order of [`Self::guids`].
    pub open spec fn values(self) -> Seq<FloatLeaf> {
        seq![self.error_cubes, self.data_cells, self.blank_cores, self.phazyonite]
    }

    /// The miscellaneous view of a document: its resource inventory
    /// resolved, then the top-level integers `Credits` and `PerkPoints`, then
    /// each resource looked up in the inventory. The first failure is the
    /// result.
    pub open spec fn read(doc: DocumentModel) -> Result<Miscellaneous, ErrorModel> {
        match owned_resources(doc) {
            Err(e) => Err(e),
            Ok(index) => match int_field(doc.properties, "Credits"@) {
                Err(e) => Err(e),
                Ok(credits) => match int_field(doc.properties, "PerkPoints"@) {
                    Err(e) => Err(e),
                    Ok(perk_points) => match resource_values(index, guids_model(Self::guids())) {
                        Err(e) => Err(e),
                        Ok(values) => Ok(
                            Miscellaneous {
                                credits,
                                perk_points,
                                error_cubes: values[0],
                                data_cells: values[1],
                                blank_cores: values[2],
                                phazyonite: values[3],
                            },
                        ),
                    },
                },
            },
        }
    }

    /// Reads the miscellaneous view of a document.
    pub fn from_gvas(doc: &Document) -> (r: Result<Self, ParsingError>)
        ensures
            result_model(r) == Self::read(doc@),
    {
        let owned_resources = get_owned_resources(doc)?;
        let credits = get_int(&doc.properties, "Credits")?;
        let perk_points = get_int(&doc.properties, "PerkPoints")?;
        let guids: [Guid; 4] = [ERROR_CUBES, DATA_CELLS, BLANK_CORES, PHAZYONITE];
        assert(guids@ =~= Self::guids());
        let values = get_resources(&owned_resources, guids.as_slice())?;
        Ok(
            Miscellaneous {
                credits,
                perk_points,
                error_cubes: values[0],
                data_cells: values[1],
                blank_cores: values[2],
                phazyonite: values[3],
            },
        )
    }
}

} // verus!

//! The four brewing ingredient quantities.

use crate::error::{result_model, ErrorModel, ParsingError};
use crate::guid::Guid;
use crate::property::{Document, DocumentModel, FloatLeaf};
use crate::registry::{BARLEY_BULB, MALT_STAR, STARCH_NUT, YEAST_CONE};
use crate::resources::{
    get_owned_resources, get_resources, guids_model, owned_resources, resource_values,
};
use vstd::prelude::*;

verus! {

/// The four brewing ingredient quantities of a document.
#[derive(Debug, Clone, Copy, Default, PartialEq, Eq, Structural)]
pub struct Brewing {
    pub starch_nut: FloatLeaf,
    pub yeast_cone: FloatLeaf,
    pub malt_star: FloatLeaf,
    pub barley_bulb: FloatLeaf,
}

impl View for Brewing {
    type V = Brewing;

    open spec fn view(&self) -> Brewing {
        *self
    }
}

impl Brewing {
    /// The identifiers under which the ingredients are held, in the order in
    /// which they are read and written.
    pub open spec fn guids() -> Seq<Guid> {
        seq![STARCH_NUT, YEAST_CONE, MALT_STAR, BARLEY_BULB]
    }

    /// The quantities in the order of [`Self::guids`].
    pub open spec fn values(self) -> Seq<FloatLeaf> {
        seq![self.starch_nut, self.yeast_cone, self.malt_star, self.barley_bulb]
    }

    /// The brewing ingredients of a document: its resource inventory
    /// resolved, then each ingredient looked up in it. The first failure is
    /// the result.
    pub open spec fn read(doc: DocumentModel) -> Result<Brewing, ErrorModel> {
        match owned_resources(doc) {
            Err(e) => Err(e),
            Ok(index) => match resource_values(index, guids_model(Self::guids())) {
                Err(e) => Err(e),
                Ok(values) => Ok(
                    Brewing {
                        starch_nut: values[0],
                        yeast_cone: values[1],
                        malt_star: values[2],
                        barley_bulb: values[3],
                    },
                ),
            },
        }
    }

    /// Reads the brewing ingredients of a document.
    pub fn from_gvas(doc: &Document) -> (r: Result<Self, ParsingError>)
        ensures
            result_model(r) == Self::read(doc@),
    {
        let owned_resources = get_owned_resources(doc)?;
        let guids: [Guid; 4] = [STARCH_NUT, YEAST_CONE, MALT_STAR, BARLEY_BULB];
        assert(guids@ =~= Self::guids());
        let values = get_resources(&owned_resources, guids.as_slice())?;
        Ok(
            Brewing {
                starch_nut: values[0],
                yeast_cone: values[1],
                malt_star: values[2],
                barley_bulb: values[3],
            },
        )
    }
}

} // verus!

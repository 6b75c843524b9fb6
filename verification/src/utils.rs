//! Small helpers shared by the wrapper types.

use vstd::prelude::*;

use crate::string::IreeStringView;

verus! {

/// Copy the whole text behind a view into an owned string, without the
/// staging-buffer bound of [`IreeStringView::to_string`].
pub fn iree_string_view_to_string(iree_string_view: &IreeStringView) -> (r: String)
    ensures
        r@ == iree_string_view@,
{
    iree_string_view.text().clone()
}

} // verus!

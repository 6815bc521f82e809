//! What the names of things are.

use vstd::prelude::*;

use crate::config::Retention;
use crate::types::class_name;
use crate::types::names_class;
use crate::types::optional_text;
use crate::types::payloads;
use crate::types::representation_views;
use crate::types::ContentClass;
use crate::types::MimePayload;
use crate::types::Representation;
use crate::ui::settings::retention_at;
use crate::ui::settings::retention_position;

verus! {

/// The five classes by name.
pub open spec fn classes() -> Seq<(Seq<char>, ContentClass)> {
    seq![
        ("text"@, ContentClass::Text),
        ("richtext"@, ContentClass::RichText),
        ("image"@, ContentClass::Image),
        ("files"@, ContentClass::Files),
        ("url"@, ContentClass::Url),
    ]
}

/// Each class has its name, and nothing else is the name of a class.
pub proof fn law_class_names(name: Seq<char>, i: int)
    ensures
        0 <= i < 5 ==> class_name(classes()[i].1) == classes()[i].0,
        names_class(name) <==> exists|k: int| 0 <= k < 5 && (#[trigger] classes()[k]).0 == name,
{
    if names_class(name) {
        let class = choose|class: ContentClass| #[trigger] class_name(class) == name;
        let k: int = match class {
            ContentClass::Text => 0,
            ContentClass::RichText => 1,
            ContentClass::Image => 2,
            ContentClass::Files => 3,
            ContentClass::Url => 4,
        };
        assert(classes()[k].0 == name);
    }
    if exists|k: int| 0 <= k < 5 && (#[trigger] classes()[k]).0 == name {
        let k = choose|k: int| 0 <= k < 5 && (#[trigger] classes()[k]).0 == name;
        assert(class_name(classes()[k].1) == name);
    }
}

/// The choices of a retention stand in the order of their length, the one
/// without an end last.
pub proof fn law_retention_choices(idx: int)
    ensures
        retention_at(0) == Retention::Days7,
        retention_at(1) == Retention::Days30,
        retention_at(2) == Retention::Months3,
        retention_at(3) == Retention::Months6,
        retention_at(4) == Retention::Year1,
        idx >= 5 ==> retention_at(idx) == Retention::Unlimited,
        retention_position(Retention::Days7) == 0,
        retention_position(Retention::Days30) == 1,
        retention_position(Retention::Months3) == 2,
        retention_position(Retention::Months6) == 3,
        retention_position(Retention::Year1) == 4,
        retention_position(Retention::Unlimited) == 5,
{
}

/// What is held is held item by item: no payload, representation or text is
/// lost, moved or changed.
pub proof fn law_items(
    offered: Seq<MimePayload>,
    stored: Seq<Representation>,
    text: Option<String>,
    i: int,
)
    ensures
        payloads(offered).len() == offered.len(),
        0 <= i < offered.len() ==> payloads(offered)[i].mime == offered[i].mime@ && payloads(
            offered,
        )[i].data == offered[i].data@,
        representation_views(stored).len() == stored.len(),
        0 <= i < stored.len() ==> representation_views(stored)[i].mime == stored[i].mime@
            && representation_views(stored)[i].data == stored[i].data@,
        text is None <==> optional_text(text) is None,
        text matches Some(s) ==> optional_text(text) == Some(s@),
{
}

} // verus!

//! The document that a package is made from. Every part is held as the text
//! of its body, the root element; the declaration is put in front when the
//! part is staged. Only the place of a part in the document matters here.

use vstd::prelude::*;
use vstd::string::*;

verus! {

/// The document properties, each of them optional.
#[derive(Debug)]
pub struct DocProps {
    pub app: Option<String>,
    pub core: Option<String>,
    pub custom: Option<String>,
}

impl DocProps {
    /// Whether the document has no properties at all.
    pub open spec fn spec_is_empty(&self) -> bool {
        self.app is None && self.core is None && self.custom is None
    }

    /// Whether the document has no properties at all.
    #[verifier::when_used_as_spec(spec_is_empty)]
    pub fn is_empty(&self) -> (b: bool)
        ensures
            b == self.spec_is_empty(),
    {
        self.app.is_none() && self.core.is_none() && self.custom.is_none()
    }
}

/// One worksheet: its body and, where it has any, its comments.
#[derive(Debug)]
pub struct Worksheet {
    pub worksheet_part: String,
    pub comments: Option<String>,
}

/// The workbook descriptor: its text, and the sheet identifiers that it
/// declares, in the order in which it declares them.
#[derive(Debug)]
pub struct WorkbookPart {
    pub xml: String,
    pub sheet_ids: Vec<String>,
}

/// A worksheet under its identifier.
#[derive(Debug)]
pub struct SheetEntry {
    pub id: String,
    pub sheet: Worksheet,
}

/// The workbook section. The style sheet and the descriptor are mandatory: a
/// section that lacks one cannot be written. Where two worksheets carry the
/// same identifier, the first stands for it.
#[derive(Debug)]
pub struct Xl {
    pub sst: Option<String>,
    pub styles: Option<String>,
    pub theme: Option<String>,
    pub workbook_part: Option<WorkbookPart>,
    pub worksheets: Vec<SheetEntry>,
}

/// The whole document.
#[derive(Debug)]
pub struct Workbook {
    pub doc_props: DocProps,
    pub xl: Xl,
}

/// The identifiers of a list, as contracts see them.
pub open spec fn ids_view(ids: Seq<String>) -> Seq<Seq<char>> {
    Seq::new(ids.len(), |i: int| ids[i]@)
}

/// Whether `j` is the first worksheet that carries `id`.
pub open spec fn is_first_sheet(sheets: Seq<SheetEntry>, id: Seq<char>, j: int) -> bool {
    &&& 0 <= j < sheets.len()
    &&& sheets[j].id@ == id
    &&& forall|k: int| 0 <= k < j ==> (#[trigger] sheets[k]).id@ != id
}

/// The position of the worksheet that stands for `id`, if there is one.
pub open spec fn sheet_index(sheets: Seq<SheetEntry>, id: Seq<char>) -> Option<int> {
    if exists|j: int| is_first_sheet(sheets, id, j) {
        Some(choose|j: int| is_first_sheet(sheets, id, j))
    } else {
        None
    }
}

/// The worksheets that a package holds, as positions in `sheets`, in the order
/// in which they are written: the declared identifiers are followed in their
/// order; one that no worksheet carries is passed over, and so is one that
/// was declared before.
pub open spec fn emitted(declared: Seq<Seq<char>>, sheets: Seq<SheetEntry>) -> Seq<int>
    decreases declared.len(),
{
    if declared.len() == 0 {
        Seq::<int>::empty()
    } else {
        let before = emitted(declared.drop_last(), sheets);
        match sheet_index(sheets, declared.last()) {
            Some(j) => if before.contains(j) {
                before
            } else {
                before.push(j)
            },
            None => before,
        }
    }
}

/// Finds the worksheet that stands for `id`.
pub fn find_sheet(sheets: &Vec<SheetEntry>, id: &String) -> (r: Option<usize>)
    ensures
        match r {
            Some(j) => sheet_index(sheets@, id@) == Some(j as int),
            None => sheet_index(sheets@, id@) is None,
        },
        r matches Some(j) ==> j < sheets@.len() && sheets@[j as int].id@ == id@,
{
    let n: usize = sheets.len();
    let mut i: usize = 0;
    while i < n
        invariant
            i <= n,
            n == sheets@.len(),
            forall|k: int| 0 <= k < i ==> (#[trigger] sheets@[k]).id@ != id@,
        decreases n - i,
    {
        if sheets[i].id == *id {
            proof {
                assert(is_first_sheet(sheets@, id@, i as int));
                let c = choose|j: int| is_first_sheet(sheets@, id@, j);
                assert(is_first_sheet(sheets@, id@, c));
                assert(c == i);
            }
            return Some(i);
        }
        i += 1;
    }
    proof {
        assert forall|j: int| !is_first_sheet(sheets@, id@, j) by {
            if 0 <= j < sheets@.len() {
                assert(sheets@[j].id@ != id@);
            }
        }
    }
    None
}

} // verus!

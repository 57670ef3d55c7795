//! The table of models on the neuroscope front page. The first cell of each
//! row links to a model by its name; the row of a model then gives, from its
//! third cell on, the activation function, the dataset, the number of
//! layers, the layer size, the number of neurons and the number of
//! parameters, the numbers written with thousands separators.

use vstd::prelude::*;

use crate::metadata::Metadata;
use crate::text::{parse_u32_range, parse_u32_spec};

verus! {

/// Selects the links in the first cell of each row.
pub const MODEL_NAME_SELECTOR: &'static str = "td:nth-child(1) a";

/// Selects the rows of the table.
pub const ROW_SELECTOR: &'static str = "tr";

/// Selects the cells of a row.
pub const CELL_SELECTOR: &'static str = "td";

/// For each element of the HTML document `document` that the CSS selector
/// `selector` picks, in document order, the first piece of text inside it;
/// `None` where the selector does not parse.
pub uninterp spec fn html_first_texts(document: Seq<char>, selector: Seq<char>) -> Option<
    Seq<Option<Seq<char>>>,
>;

/// For each element of the HTML document `document` that `outer` picks, and
/// for each element inside it that `inner` picks, the first piece of text
/// inside that one; `None` where a selector does not parse.
pub uninterp spec fn html_nested_first_texts(
    document: Seq<char>,
    outer: Seq<char>,
    inner: Seq<char>,
) -> Option<Seq<Seq<Option<Seq<char>>>>>;

/// Parses `document` with `scraper::Html::parse_document`, `selector` with
/// `scraper::Selector::parse`, and lists the first text (`ElementRef::text`)
/// of each element that `Html::select` gives. Claimed: the result is
/// `html_first_texts` of the two texts; nothing is claimed of what that is.
#[verifier::external_body]
fn select_first_texts(document: &str, selector: &str) -> (r: Option<Vec<Option<String>>>)
    ensures
        r.deep_view() == html_first_texts(document@, selector@),
{
    let selector = scraper::Selector::parse(selector).ok()?;
    let html = scraper::Html::parse_document(document);
    Some(html.select(&selector).map(|e| e.text().next().map(|t| t.to_owned())).collect())
}

/// Parses `document` with `scraper::Html::parse_document`, both selectors
/// with `scraper::Selector::parse`, and lists, for each element that `outer`
/// selects, the first text of each element that `ElementRef::select` with
/// `inner` gives inside it. Claimed: the result is `html_nested_first_texts`
/// of the three texts; nothing is claimed of what that is.
#[verifier::external_body]
fn select_nested_first_texts(document: &str, outer: &str, inner: &str) -> (r: Option<
    Vec<Vec<Option<String>>>,
>)
    ensures
        r.deep_view() == html_nested_first_texts(document@, outer@, inner@),
{
    let outer = scraper::Selector::parse(outer).ok()?;
    let inner = scraper::Selector::parse(inner).ok()?;
    let html = scraper::Html::parse_document(document);
    Some(
        html.select(&outer).map(
            |row| row.select(&inner).map(|e| e.text().next().map(|t| t.to_owned())).collect(),
        ).collect(),
    )
}

/// Why the table did not give a model's metadata.
#[derive(Debug, Clone, Copy, PartialEq, Eq, Structural)]
pub enum ModelTableError {
    /// A selector does not parse.
    BadSelector,
    /// A model link before the model's own has no text.
    MissingName,
    /// No model of that name is listed.
    UnknownModel,
    /// The table has no row for the model's position.
    MissingRow,
    /// A cell of the model's row has no text.
    MissingCellText,
    /// The model's row has fewer than eight cells.
    TooFewCells,
    /// The cell at this position holds no `u32`.
    BadNumber(usize),
}

/// The message that describes an error.
pub open spec fn table_error_message(e: ModelTableError) -> Seq<char> {
    match e {
        ModelTableError::BadSelector => "Invalid selector."@,
        ModelTableError::MissingName => "Model name should be a non-empty string."@,
        ModelTableError::UnknownModel => "Neuroscope has no model with that name."@,
        ModelTableError::MissingRow => "Model row not found."@,
        ModelTableError::MissingCellText => "Model row element should be a non-empty string."@,
        ModelTableError::TooFewCells => "Model row has too few elements."@,
        ModelTableError::BadNumber(_) => "Model row element is not a number."@,
    }
}

impl ModelTableError {
    /// The message that describes the error.
    pub fn message(&self) -> (r: String)
        ensures
            r@ == table_error_message(*self),
    {
        match self {
            ModelTableError::BadSelector => "Invalid selector.".to_owned(),
            ModelTableError::MissingName => "Model name should be a non-empty string.".to_owned(),
            ModelTableError::UnknownModel => "Neuroscope has no model with that name.".to_owned(),
            ModelTableError::MissingRow => "Model row not found.".to_owned(),
            ModelTableError::MissingCellText => "Model row element should be a non-empty string.".to_owned(),
            ModelTableError::TooFewCells => "Model row has too few elements.".to_owned(),
            ModelTableError::BadNumber(_) => "Model row element is not a number.".to_owned(),
        }
    }
}

/// The position of `model` among the names, searched from `i` on; a name
/// without text met before it stops the search.
pub open spec fn model_position_from(names: Seq<Option<Seq<char>>>, model: Seq<char>, i: int) -> Result<
    int,
    ModelTableError,
>
    decreases names.len() - i,
{
    if i < 0 || i >= names.len() {
        Err(ModelTableError::UnknownModel)
    } else {
        match names[i] {
            None => Err(ModelTableError::MissingName),
            Some(name) => if name == model {
                Ok(i)
            } else {
                model_position_from(names, model, i + 1)
            },
        }
    }
}

/// `s` without its commas.
pub open spec fn without_commas(s: Seq<char>) -> Seq<char>
    decreases s.len(),
{
    if s.len() == 0 {
        s
    } else if s.last() == ',' {
        without_commas(s.drop_last())
    } else {
        without_commas(s.drop_last()).push(s.last())
    }
}

/// The number in a cell: its text without commas, read as a `u32`.
pub open spec fn cell_number(cell: Seq<char>) -> Option<u32> {
    parse_u32_spec(without_commas(cell))
}

/// Every cell has a text.
pub open spec fn all_cells_have_text(cells: Seq<Option<Seq<char>>>) -> bool {
    forall|i: int| 0 <= i < cells.len() ==> #[trigger] cells[i] is Some
}

/// The first of the number cells 4 to 7 that holds no number.
pub open spec fn first_bad_number(cells: Seq<Seq<char>>) -> Option<usize> {
    if cell_number(cells[4]) is None {
        Some(4)
    } else if cell_number(cells[5]) is None {
        Some(5)
    } else if cell_number(cells[6]) is None {
        Some(6)
    } else if cell_number(cells[7]) is None {
        Some(7)
    } else {
        None
    }
}

/// What the metadata of `model` is, read from the model names and the table
/// rows: the model's row is the one after its position among the names (the
/// first row is the table's head).
pub open spec fn table_metadata(
    model: Seq<char>,
    names: Seq<Option<Seq<char>>>,
    rows: Seq<Seq<Option<Seq<char>>>>,
) -> Result<
    (Seq<char>, Seq<char>, u32, u32, u32, u32),
    ModelTableError,
> {
    match model_position_from(names, model, 0) {
        Err(e) => Err(e),
        Ok(p) => if p + 1 >= rows.len() {
            Err(ModelTableError::MissingRow)
        } else if !all_cells_have_text(rows[p + 1]) {
            Err(ModelTableError::MissingCellText)
        } else {
            let cells = rows[p + 1].map_values(|c: Option<Seq<char>>| c->0);
            if cells.len() < 8 {
                Err(ModelTableError::TooFewCells)
            } else {
                match first_bad_number(cells) {
                    Some(col) => Err(ModelTableError::BadNumber(col)),
                    None => Ok(
                        (
                            cells[2],
                            cells[3],
                            cell_number(cells[4])->0,
                            cell_number(cells[5])->0,
                            cell_number(cells[6])->0,
                            cell_number(cells[7])->0,
                        ),
                    ),
                }
            }
        }
    }
}

/// The parts of `m` that the table gives, and its name.
pub open spec fn metadata_parts(m: Metadata) -> (Seq<char>, Seq<char>, u32, u32, u32, u32) {
    (
        m.activation_function@,
        m.dataset@,
        m.num_layers,
        m.layer_size,
        m.num_total_neurons,
        m.num_total_parameters,
    )
}

/// The position of `model` among `names`.
fn model_position(names: &Vec<Option<String>>, model: &str) -> (r: Result<usize, ModelTableError>)
    ensures
        match r {
            Ok(p) => model_position_from(names.deep_view(), model@, 0) == Ok::<
                int,
                ModelTableError,
            >(p as int),
            Err(e) => model_position_from(names.deep_view(), model@, 0) == Err::<
                int,
                ModelTableError,
            >(e),
        },
{
    let mut i: usize = 0;
    while i < names.len()
        invariant
            i <= names@.len(),
            model_position_from(names.deep_view(), model@, 0) == model_position_from(
                names.deep_view(),
                model@,
                i as int,
            ),
        decreases names.len() - i,
    {
        assert(names.deep_view()[i as int] == names@[i as int].deep_view());
        match &names[i] {
            None => {
                return Err(ModelTableError::MissingName);
            },
            Some(name) => {
                if crate::text::str_equals(name.as_str(), model) {
                    return Ok(i);
                }
            },
        }
        i = i + 1;
    }
    Err(ModelTableError::UnknownModel)
}

/// The number in a cell.
fn parse_cell_number(cell: &str) -> (r: Option<u32>)
    ensures
        r == cell_number(cell@),
{
    let chars = crate::text::chars_of(cell);
    let mut digits: Vec<char> = Vec::new();
    let mut i: usize = 0;
    while i < chars.len()
        invariant
            chars@ == cell@,
            i <= chars@.len(),
            digits@ == without_commas(chars@.take(i as int)),
        decreases chars.len() - i,
    {
        let c = chars[i];
        assert(chars@.take(i + 1).drop_last() =~= chars@.take(i as int));
        if c != ',' {
            digits.push(c);
        }
        i = i + 1;
    }
    assert(chars@.take(i as int) =~= cell@);
    let r = parse_u32_range(&digits, 0, digits.len());
    assert(digits@.subrange(0, digits@.len() as int) =~= digits@);
    r
}

/// The metadata of `model`, read from the model names and the rows of the
/// table.
pub fn metadata_from_table(
    model: &str,
    names: &Vec<Option<String>>,
    rows: &Vec<Vec<Option<String>>>,
) -> (r: Result<Metadata, ModelTableError>)
    ensures
        match r {
            Ok(m) => m.name@ == model@ && table_metadata(model@, names.deep_view(), rows.deep_view())
                == Ok::<(Seq<char>, Seq<char>, u32, u32, u32, u32), ModelTableError>(
                metadata_parts(m),
            ),
            Err(e) => table_metadata(model@, names.deep_view(), rows.deep_view()) == Err::<
                (Seq<char>, Seq<char>, u32, u32, u32, u32),
                ModelTableError,
            >(e),
        },
{
    let p = match model_position(names, model) {
        Ok(p) => p,
        Err(e) => {
            return Err(e);
        },
    };
    if rows.len() == 0 || p >= rows.len() - 1 {
        return Err(ModelTableError::MissingRow);
    }
    let row = &rows[p + 1];
    let ghost cells_view = rows.deep_view()[p + 1];
    assert(cells_view == row.deep_view());
    let mut cells: Vec<&str> = Vec::new();
    let mut i: usize = 0;
    while i < row.len()
        invariant
            i <= row@.len(),
            cells_view == row.deep_view(),
            cells_view == rows.deep_view()[p + 1],
            p + 1 < rows@.len(),
            model_position_from(names.deep_view(), model@, 0) == Ok::<int, ModelTableError>(
                p as int,
            ),
            cells@.len() == i,
            forall|j: int| 0 <= j < i ==> #[trigger] cells_view[j] is Some,
            forall|j: int| 0 <= j < i ==> cells_view[j] == Some(#[trigger] cells@[j]@),
        decreases row.len() - i,
    {
        assert(cells_view[i as int] == row@[i as int].deep_view());
        match &row[i] {
            None => {
                assert(cells_view[i as int] is None);
                assert(!all_cells_have_text(cells_view));
                return Err(ModelTableError::MissingCellText);
            },
            Some(text) => {
                cells.push(text.as_str());
            },
        }
        i = i + 1;
    }
    let ghost texts = cells_view.map_values(|c: Option<Seq<char>>| c->0);
    assert(all_cells_have_text(cells_view));
    assert(forall|j: int| 0 <= j < cells@.len() ==> texts[j] == #[trigger] cells@[j]@);
    if cells.len() < 8 {
        return Err(ModelTableError::TooFewCells);
    }
    let num_layers = match parse_cell_number(cells[4]) {
        Some(v) => v,
        None => {
            return Err(ModelTableError::BadNumber(4));
        },
    };
    let layer_size = match parse_cell_number(cells[5]) {
        Some(v) => v,
        None => {
            return Err(ModelTableError::BadNumber(5));
        },
    };
    let num_total_neurons = match parse_cell_number(cells[6]) {
        Some(v) => v,
        None => {
            return Err(ModelTableError::BadNumber(6));
        },
    };
    let num_total_parameters = match parse_cell_number(cells[7]) {
        Some(v) => v,
        None => {
            return Err(ModelTableError::BadNumber(7));
        },
    };
    Ok(
        Metadata {
            name: model.to_owned(),
            num_layers,
            layer_size,
            activation_function: cells[2].to_owned(),
            num_total_neurons,
            num_total_parameters,
            dataset: cells[3].to_owned(),
        },
    )
}

/// What reading the metadata of `model` gives, given what selecting the
/// model names and the table rows found.
pub open spec fn page_metadata(
    model: Seq<char>,
    names: Option<Seq<Option<Seq<char>>>>,
    rows: Option<Seq<Seq<Option<Seq<char>>>>>,
) -> Result<(Seq<char>, Seq<char>, u32, u32, u32, u32), ModelTableError> {
    match (names, rows) {
        (Some(names), Some(rows)) => table_metadata(model, names, rows),
        _ => Err(ModelTableError::BadSelector),
    }
}

/// The metadata of `model`, read from the neuroscope front page `page`.
pub fn model_metadata_from_page(model: &str, page: &str) -> (r: Result<Metadata, ModelTableError>)
    ensures
        match r {
            Ok(m) => m.name@ == model@ && page_metadata(
                model@,
                html_first_texts(page@, MODEL_NAME_SELECTOR@),
                html_nested_first_texts(page@, ROW_SELECTOR@, CELL_SELECTOR@),
            ) == Ok::<(Seq<char>, Seq<char>, u32, u32, u32, u32), ModelTableError>(
                metadata_parts(m),
            ),
            Err(e) => page_metadata(
                model@,
                html_first_texts(page@, MODEL_NAME_SELECTOR@),
                html_nested_first_texts(page@, ROW_SELECTOR@, CELL_SELECTOR@),
            ) == Err::<(Seq<char>, Seq<char>, u32, u32, u32, u32), ModelTableError>(e),
        },
{
    let names = match select_first_texts(page, MODEL_NAME_SELECTOR) {
        Some(names) => names,
        None => {
            return Err(ModelTableError::BadSelector);
        },
    };
    let rows = match select_nested_first_texts(page, ROW_SELECTOR, CELL_SELECTOR) {
        Some(rows) => rows,
        None => {
            return Err(ModelTableError::BadSelector);
        },
    };
    metadata_from_table(model, &names, &rows)
}

} // verus!

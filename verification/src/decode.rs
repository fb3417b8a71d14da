//! The per-message decoding policy: from one inbound frame to nothing, one event or
//! one error.

use vstd::prelude::*;
use crate::decimal::{spec_parse, Decimal, DecimalModel};
use crate::error::{DecodeError, Field, WsError};
use crate::event::{
    BookEvent, BookModel, EventModel, PriceChange, PriceChangeEvent, PriceChangeEventModel,
    PriceChangeModel, PriceLevel, PriceLevelModel, Side, WsEvent,
};
use vstd::string::StringExecFns;
use crate::json::{
    json_array_elements, json_object_fields, json_string_content, read_array, read_object,
    read_string,
};

verus! {

/// One frame as the transport delivers it.
#[derive(Clone, Debug, PartialEq, Eq)]
pub enum Frame {
    Text(String),
    Binary(Vec<u8>),
    Ping(Vec<u8>),
    Pong(Vec<u8>),
    Close,
    Raw,
}

/// `index` is the first field of `fields` that is called `name`.
pub open spec fn first_named(fields: Seq<(Seq<char>, Seq<char>)>, name: Seq<char>, index: int) -> bool {
    &&& 0 <= index < fields.len()
    &&& fields[index].0 == name
    &&& forall|j: int| 0 <= j < index ==> (#[trigger] fields[j]).0 != name
}

/// The text of the value of the first field called `name`, if there is one.
pub open spec fn field_raw(fields: Seq<(Seq<char>, Seq<char>)>, name: Seq<char>) -> Option<
    Seq<char>,
> {
    if exists|i: int| first_named(fields, name, i) {
        Some(fields[choose|i: int| first_named(fields, name, i)].1)
    } else {
        None
    }
}

/// The string that the field called `name` holds.
pub open spec fn spec_string_field(
    fields: Seq<(Seq<char>, Seq<char>)>,
    name: Seq<char>,
    field: Field,
) -> Result<Seq<char>, DecodeError> {
    match field_raw(fields, name) {
        None => Err(DecodeError::Missing(field)),
        Some(raw) => match json_string_content(raw) {
            None => Err(DecodeError::Invalid(field)),
            Some(content) => Ok(content),
        },
    }
}

/// The decimal number that the field called `name` holds, written as a string.
pub open spec fn spec_decimal_field(
    fields: Seq<(Seq<char>, Seq<char>)>,
    name: Seq<char>,
    field: Field,
) -> Result<DecimalModel, DecodeError> {
    match spec_string_field(fields, name, field) {
        Err(e) => Err(e),
        Ok(content) => match spec_parse(content) {
            None => Err(DecodeError::Invalid(field)),
            Some(number) => Ok(number),
        },
    }
}

/// The elements of the array that the field called `name` holds.
pub open spec fn spec_array_field(
    fields: Seq<(Seq<char>, Seq<char>)>,
    name: Seq<char>,
    field: Field,
) -> Result<Seq<Seq<char>>, DecodeError> {
    match field_raw(fields, name) {
        None => Err(DecodeError::Missing(field)),
        Some(raw) => match json_array_elements(raw) {
            None => Err(DecodeError::Invalid(field)),
            Some(elements) => Ok(elements),
        },
    }
}

/// `BUY` and `SELL` name the two sides.
pub open spec fn spec_side(content: Seq<char>) -> Option<Side> {
    if content == "BUY"@ {
        Some(Side::Buy)
    } else if content == "SELL"@ {
        Some(Side::Sell)
    } else {
        None
    }
}

/// One price level: an object with the decimal fields `price` and `size`.
pub open spec fn spec_level(raw: Seq<char>) -> Result<PriceLevelModel, DecodeError> {
    match json_object_fields(raw) {
        None => Err(DecodeError::Syntax),
        Some(fields) => match spec_decimal_field(fields, "price"@, Field::Price) {
            Err(e) => Err(e),
            Ok(price) => match spec_decimal_field(fields, "size"@, Field::Size) {
                Err(e) => Err(e),
                Ok(size) => Ok(PriceLevelModel { price, size }),
            },
        },
    }
}

/// The levels of a list in their order, or the error of the first that has one.
pub open spec fn spec_levels(raws: Seq<Seq<char>>) -> Result<Seq<PriceLevelModel>, DecodeError>
    decreases raws.len(),
{
    if raws.len() == 0 {
        Ok(Seq::empty())
    } else {
        match spec_levels(raws.drop_last()) {
            Err(e) => Err(e),
            Ok(levels) => match spec_level(raws.last()) {
                Err(e) => Err(e),
                Ok(level) => Ok(levels.push(level)),
            },
        }
    }
}

/// One delta: an object with the string field `side` and the decimal fields `price`
/// and `size`.
pub open spec fn spec_change(raw: Seq<char>) -> Result<PriceChangeModel, DecodeError> {
    match json_object_fields(raw) {
        None => Err(DecodeError::Syntax),
        Some(fields) => match spec_string_field(fields, "side"@, Field::Side) {
            Err(e) => Err(e),
            Ok(content) => match spec_side(content) {
                None => Err(DecodeError::Invalid(Field::Side)),
                Some(side) => match spec_decimal_field(fields, "price"@, Field::Price) {
                    Err(e) => Err(e),
                    Ok(price) => match spec_decimal_field(fields, "size"@, Field::Size) {
                        Err(e) => Err(e),
                        Ok(size) => Ok(PriceChangeModel { side, price, size }),
                    },
                },
            },
        }
    }
}

/// The deltas of a list in their order, or the error of the first that has one.
pub open spec fn spec_changes(raws: Seq<Seq<char>>) -> Result<Seq<PriceChangeModel>, DecodeError>
    decreases raws.len(),
{
    if raws.len() == 0 {
        Ok(Seq::empty())
    } else {
        match spec_changes(raws.drop_last()) {
            Err(e) => Err(e),
            Ok(changes) => match spec_change(raws.last()) {
                Err(e) => Err(e),
                Ok(change) => Ok(changes.push(change)),
            },
        }
    }
}

/// The levels that the array field called `name` lists.
pub open spec fn spec_level_field(
    fields: Seq<(Seq<char>, Seq<char>)>,
    name: Seq<char>,
    field: Field,
) -> Result<Seq<PriceLevelModel>, DecodeError> {
    match spec_array_field(fields, name, field) {
        Err(e) => Err(e),
        Ok(raws) => spec_levels(raws),
    }
}

/// A book snapshot: `market`, `asset_id`, `bids` and `asks`, read in that order.
pub open spec fn spec_book(fields: Seq<(Seq<char>, Seq<char>)>) -> Result<BookModel, DecodeError> {
    match spec_string_field(fields, "market"@, Field::Market) {
        Err(e) => Err(e),
        Ok(market) => match spec_string_field(fields, "asset_id"@, Field::AssetId) {
            Err(e) => Err(e),
            Ok(asset_id) => match spec_level_field(fields, "bids"@, Field::Bids) {
                Err(e) => Err(e),
                Ok(bids) => match spec_level_field(fields, "asks"@, Field::Asks) {
                    Err(e) => Err(e),
                    Ok(asks) => Ok(BookModel { market, asset_id, bids, asks }),
                },
            },
        },
    }
}

/// A price change: `market` and `price_changes`, read in that order.
pub open spec fn spec_price_change(fields: Seq<(Seq<char>, Seq<char>)>) -> Result<
    PriceChangeEventModel,
    DecodeError,
> {
    match spec_string_field(fields, "market"@, Field::Market) {
        Err(e) => Err(e),
        Ok(market) => match spec_array_field(fields, "price_changes"@, Field::PriceChanges) {
            Err(e) => Err(e),
            Ok(raws) => match spec_changes(raws) {
                Err(e) => Err(e),
                Ok(price_changes) => Ok(PriceChangeEventModel { market, price_changes }),
            },
        },
    }
}

/// The event that the fields of one object hold: the field `event_type` says which
/// of the two shapes the other fields have. Fields that a shape does not name are
/// ignored.
pub open spec fn spec_event_fields(fields: Seq<(Seq<char>, Seq<char>)>) -> Result<
    EventModel,
    DecodeError,
> {
    match spec_string_field(fields, "event_type"@, Field::EventType) {
        Err(e) => Err(e),
        Ok(kind) => if kind == "book"@ {
            match spec_book(fields) {
                Err(e) => Err(e),
                Ok(book) => Ok(EventModel::Book(book)),
            }
        } else if kind == "price_change"@ {
            match spec_price_change(fields) {
                Err(e) => Err(e),
                Ok(change) => Ok(EventModel::PriceChange(change)),
            }
        } else {
            Err(DecodeError::UnknownEventType)
        },
    }
}

/// One event: a JSON object whose fields hold it.
pub open spec fn spec_event(text: Seq<char>) -> Result<EventModel, DecodeError> {
    match json_object_fields(text) {
        None => Err(DecodeError::Syntax),
        Some(fields) => spec_event_fields(fields),
    }
}

/// The policy for a text frame. A text that is a JSON array stands for its first
/// element alone, and for nothing where it is empty; any other text is read as one
/// event.
pub open spec fn spec_text(text: Seq<char>) -> Option<Result<EventModel, DecodeError>> {
    match json_array_elements(text) {
        Some(elements) => if elements.len() == 0 {
            None
        } else {
            Some(spec_event(elements[0]))
        },
        None => Some(spec_event(text)),
    }
}

/// Whether a decoded result is the one that the model names.
pub open spec fn event_matches(
    decoded: Result<WsEvent, DecodeError>,
    model: Result<EventModel, DecodeError>,
) -> bool {
    match decoded {
        Ok(event) => model == Ok::<EventModel, DecodeError>(event@),
        Err(e) => model == Err::<EventModel, DecodeError>(e),
    }
}

/// The policy for any frame: keep-alive and raw frames yield nothing, a close frame
/// the session-ending `ConnectionClosed`, a binary frame `UnsupportedFrame`, and a
/// text frame what `spec_text` says, a decode error becoming `DecodeFailure`.
pub open spec fn frame_matches(frame: Frame, item: Option<Result<WsEvent, WsError>>) -> bool {
    match frame {
        Frame::Text(text) => match spec_text(text@) {
            None => item is None,
            Some(Ok(model)) => item matches Some(Ok(event)) && event@ == model,
            Some(Err(e)) => item == Some(Err::<WsEvent, WsError>(WsError::DecodeFailure(e))),
        },
        Frame::Binary(_) => item == Some(Err::<WsEvent, WsError>(WsError::UnsupportedFrame)),
        Frame::Close => item == Some(Err::<WsEvent, WsError>(WsError::ConnectionClosed)),
        Frame::Ping(_) | Frame::Pong(_) | Frame::Raw => item is None,
    }
}

/// A batch stands for its first element alone: a text that is a JSON array of one or
/// more elements decodes to what its first element decodes to, whatever follows it.
pub proof fn law_batch_yields_its_first_element(text: Seq<char>, elements: Seq<Seq<char>>)
    requires
        json_array_elements(text) == Some(elements),
        elements.len() > 0,
    ensures
        spec_text(text) == Some(spec_event(elements[0])),
{
}

/// Two batches with the same first element decode alike.
pub proof fn law_batch_ignores_later_elements(
    first: Seq<char>,
    second: Seq<char>,
    left: Seq<Seq<char>>,
    right: Seq<Seq<char>>,
)
    requires
        json_array_elements(first) == Some(left),
        json_array_elements(second) == Some(right),
        left.len() > 0,
        right.len() > 0,
        left[0] == right[0],
    ensures
        spec_text(first) == spec_text(second),
{
}

/// An empty batch yields nothing: no event and no error.
pub proof fn law_empty_batch_yields_nothing(text: String, item: Option<Result<WsEvent, WsError>>)
    requires
        json_array_elements(text@) == Some(Seq::<Seq<char>>::empty()),
        frame_matches(Frame::Text(text), item),
    ensures
        spec_text(text@) is None,
        item is None,
{
}

/// Whether `value` holds the characters of `text`.
pub fn is_text(value: &String, text: &str) -> (same: bool)
    ensures
        same == (value@ == text@),
{
    let other = String::from_str(text);
    *value == other
}

/// Looks a field up by its name. In the fields of an object every name stands once;
/// in any other list the first field of the name is the one found.
pub fn find_field<'a>(fields: &'a Vec<(String, String)>, name: &str) -> (found: Option<&'a String>)
    ensures
        match found {
            Some(raw) => field_raw(fields.deep_view(), name@) == Some(raw@),
            None => field_raw(fields.deep_view(), name@) is None,
        },
{
    let ghost model = fields.deep_view();
    let key = String::from_str(name);
    let mut i: usize = 0;
    while i < fields.len()
        invariant
            i <= fields.len(),
            model == fields.deep_view(),
            key@ == name@,
            forall|j: int| 0 <= j < i ==> (#[trigger] model[j]).0 != name@,
        decreases fields.len() - i,
    {
        assert(model[i as int] == (fields[i as int].0@, fields[i as int].1@));
        if fields[i].0 == key {
            proof {
                assert(first_named(model, name@, i as int));
                let chosen = choose|k: int| first_named(model, name@, k);
                assert(chosen == i) by {
                    if chosen < i {
                        assert(model[chosen].0 != name@);
                    } else if i < chosen {
                        assert(model[i as int].0 != name@);
                    }
                }
            }
            return Some(&fields[i].1);
        }
        i = i + 1;
    }
    None
}

fn string_field(fields: &Vec<(String, String)>, name: &str, field: Field) -> (content: Result<
    String,
    DecodeError,
>)
    ensures
        match content {
            Ok(s) => spec_string_field(fields.deep_view(), name@, field) == Ok::<
                Seq<char>,
                DecodeError,
            >(s@),
            Err(e) => spec_string_field(fields.deep_view(), name@, field) == Err::<
                Seq<char>,
                DecodeError,
            >(e),
        },
{
    match find_field(fields, name) {
        None => Err(DecodeError::Missing(field)),
        Some(raw) => match read_string(raw.as_str()) {
            Err(_) => Err(DecodeError::Invalid(field)),
            Ok(content) => Ok(content),
        },
    }
}

fn decimal_field(fields: &Vec<(String, String)>, name: &str, field: Field) -> (number: Result<
    Decimal,
    DecodeError,
>)
    ensures
        match number {
            Ok(d) => spec_decimal_field(fields.deep_view(), name@, field) == Ok::<
                DecimalModel,
                DecodeError,
            >(d@),
            Err(e) => spec_decimal_field(fields.deep_view(), name@, field) == Err::<
                DecimalModel,
                DecodeError,
            >(e),
        },
{
    match string_field(fields, name, field) {
        Err(e) => Err(e),
        Ok(content) => match Decimal::parse(content.as_str()) {
            None => Err(DecodeError::Invalid(field)),
            Some(number) => Ok(number),
        },
    }
}

fn array_field(fields: &Vec<(String, String)>, name: &str, field: Field) -> (elements: Result<
    Vec<String>,
    DecodeError,
>)
    ensures
        match elements {
            Ok(raws) => spec_array_field(fields.deep_view(), name@, field) == Ok::<
                Seq<Seq<char>>,
                DecodeError,
            >(raws.deep_view()),
            Err(e) => spec_array_field(fields.deep_view(), name@, field) == Err::<
                Seq<Seq<char>>,
                DecodeError,
            >(e),
        },
{
    match find_field(fields, name) {
        None => Err(DecodeError::Missing(field)),
        Some(raw) => match read_array(raw.as_str()) {
            Err(_) => Err(DecodeError::Invalid(field)),
            Ok(elements) => Ok(elements),
        },
    }
}

/// Reads the name of a side.
pub fn decode_side(content: &String) -> (side: Option<Side>)
    ensures
        side == spec_side(content@),
{
    if is_text(content, "BUY") {
        Some(Side::Buy)
    } else if is_text(content, "SELL") {
        Some(Side::Sell)
    } else {
        None
    }
}

fn decode_level(raw: &str) -> (level: Result<PriceLevel, DecodeError>)
    ensures
        match level {
            Ok(l) => spec_level(raw@) == Ok::<PriceLevelModel, DecodeError>(l@),
            Err(e) => spec_level(raw@) == Err::<PriceLevelModel, DecodeError>(e),
        },
{
    let fields = match read_object(raw) {
        Err(_) => {
            return Err(DecodeError::Syntax);
        },
        Ok(fields) => fields,
    };
    let price = match decimal_field(&fields, "price", Field::Price) {
        Err(e) => {
            return Err(e);
        },
        Ok(price) => price,
    };
    let size = match decimal_field(&fields, "size", Field::Size) {
        Err(e) => {
            return Err(e);
        },
        Ok(size) => size,
    };
    Ok(PriceLevel { price, size })
}

fn decode_levels(raws: &Vec<String>) -> (levels: Result<Vec<PriceLevel>, DecodeError>)
    ensures
        match levels {
            Ok(ls) => spec_levels(raws.deep_view()) == Ok::<Seq<PriceLevelModel>, DecodeError>(
                ls.deep_view(),
            ),
            Err(e) => spec_levels(raws.deep_view()) == Err::<Seq<PriceLevelModel>, DecodeError>(e),
        },
{
    let ghost texts = raws.deep_view();
    let mut levels: Vec<PriceLevel> = Vec::new();
    let mut i: usize = 0;
    assert(texts.take(0) =~= Seq::<Seq<char>>::empty());
    assert(levels.deep_view() =~= Seq::<PriceLevelModel>::empty());
    while i < raws.len()
        invariant
            i <= raws.len(),
            texts == raws.deep_view(),
            spec_levels(texts.take(i as int)) == Ok::<Seq<PriceLevelModel>, DecodeError>(
                levels.deep_view(),
            ),
        decreases raws.len() - i,
    {
        proof {
            assert(texts.take(i + 1).drop_last() =~= texts.take(i as int));
            assert(texts.take(i + 1).last() == raws[i as int]@);
        }
        let ghost before = levels.deep_view();
        match decode_level(raws[i].as_str()) {
            Err(e) => {
                proof {
                    lemma_levels_error_stays(texts, i + 1);
                }
                return Err(e);
            },
            Ok(level) => {
                levels.push(level);
                assert(levels.deep_view() =~= before.push(level@));
            },
        }
        i = i + 1;
    }
    assert(texts.take(i as int) =~= texts);
    Ok(levels)
}

/// An error among the first `upto` levels is the error of the whole list.
proof fn lemma_levels_error_stays(raws: Seq<Seq<char>>, upto: int)
    requires
        0 <= upto <= raws.len(),
        spec_levels(raws.take(upto)) is Err,
    ensures
        spec_levels(raws) == spec_levels(raws.take(upto)),
    decreases raws.len() - upto,
{
    if upto < raws.len() {
        assert(raws.take(upto + 1).drop_last() =~= raws.take(upto));
        lemma_levels_error_stays(raws, upto + 1);
    } else {
        assert(raws.take(upto) =~= raws);
    }
}

fn decode_change(raw: &str) -> (change: Result<PriceChange, DecodeError>)
    ensures
        match change {
            Ok(c) => spec_change(raw@) == Ok::<PriceChangeModel, DecodeError>(c@),
            Err(e) => spec_change(raw@) == Err::<PriceChangeModel, DecodeError>(e),
        },
{
    let fields = match read_object(raw) {
        Err(_) => {
            return Err(DecodeError::Syntax);
        },
        Ok(fields) => fields,
    };
    let content = match string_field(&fields, "side", Field::Side) {
        Err(e) => {
            return Err(e);
        },
        Ok(content) => content,
    };
    let side = match decode_side(&content) {
        None => {
            return Err(DecodeError::Invalid(Field::Side));
        },
        Some(side) => side,
    };
    let price = match decimal_field(&fields, "price", Field::Price) {
        Err(e) => {
            return Err(e);
        },
        Ok(price) => price,
    };
    let size = match decimal_field(&fields, "size", Field::Size) {
        Err(e) => {
            return Err(e);
        },
        Ok(size) => size,
    };
    Ok(PriceChange { side, price, size })
}

fn decode_changes(raws: &Vec<String>) -> (changes: Result<Vec<PriceChange>, DecodeError>)
    ensures
        match changes {
            Ok(cs) => spec_changes(raws.deep_view()) == Ok::<Seq<PriceChangeModel>, DecodeError>(
                cs.deep_view(),
            ),
            Err(e) => spec_changes(raws.deep_view()) == Err::<Seq<PriceChangeModel>, DecodeError>(
                e,
            ),
        },
{
    let ghost texts = raws.deep_view();
    let mut changes: Vec<PriceChange> = Vec::new();
    let mut i: usize = 0;
    assert(texts.take(0) =~= Seq::<Seq<char>>::empty());
    assert(changes.deep_view() =~= Seq::<PriceChangeModel>::empty());
    while i < raws.len()
        invariant
            i <= raws.len(),
            texts == raws.deep_view(),
            spec_changes(texts.take(i as int)) == Ok::<Seq<PriceChangeModel>, DecodeError>(
                changes.deep_view(),
            ),
        decreases raws.len() - i,
    {
        proof {
            assert(texts.take(i + 1).drop_last() =~= texts.take(i as int));
            assert(texts.take(i + 1).last() == raws[i as int]@);
        }
        let ghost before = changes.deep_view();
        match decode_change(raws[i].as_str()) {
            Err(e) => {
                proof {
                    lemma_changes_error_stays(texts, i + 1);
                }
                return Err(e);
            },
            Ok(change) => {
                changes.push(change);
                assert(changes.deep_view() =~= before.push(change@));
            },
        }
        i = i + 1;
    }
    assert(texts.take(i as int) =~= texts);
    Ok(changes)
}

/// An error among the first `upto` deltas is the error of the whole list.
proof fn lemma_changes_error_stays(raws: Seq<Seq<char>>, upto: int)
    requires
        0 <= upto <= raws.len(),
        spec_changes(raws.take(upto)) is Err,
    ensures
        spec_changes(raws) == spec_changes(raws.take(upto)),
    decreases raws.len() - upto,
{
    if upto < raws.len() {
        assert(raws.take(upto + 1).drop_last() =~= raws.take(upto));
        lemma_changes_error_stays(raws, upto + 1);
    } else {
        assert(raws.take(upto) =~= raws);
    }
}

fn level_field(fields: &Vec<(String, String)>, name: &str, field: Field) -> (levels: Result<
    Vec<PriceLevel>,
    DecodeError,
>)
    ensures
        match levels {
            Ok(ls) => spec_level_field(fields.deep_view(), name@, field) == Ok::<
                Seq<PriceLevelModel>,
                DecodeError,
            >(ls.deep_view()),
            Err(e) => spec_level_field(fields.deep_view(), name@, field) == Err::<
                Seq<PriceLevelModel>,
                DecodeError,
            >(e),
        },
{
    match array_field(fields, name, field) {
        Err(e) => Err(e),
        Ok(raws) => decode_levels(&raws),
    }
}

fn decode_book(fields: &Vec<(String, String)>) -> (book: Result<BookEvent, DecodeError>)
    ensures
        match book {
            Ok(b) => spec_book(fields.deep_view()) == Ok::<BookModel, DecodeError>(b@),
            Err(e) => spec_book(fields.deep_view()) == Err::<BookModel, DecodeError>(e),
        },
{
    let market = match string_field(fields, "market", Field::Market) {
        Err(e) => {
            return Err(e);
        },
        Ok(market) => market,
    };
    let asset_id = match string_field(fields, "asset_id", Field::AssetId) {
        Err(e) => {
            return Err(e);
        },
        Ok(asset_id) => asset_id,
    };
    let bids = match level_field(fields, "bids", Field::Bids) {
        Err(e) => {
            return Err(e);
        },
        Ok(bids) => bids,
    };
    let asks = match level_field(fields, "asks", Field::Asks) {
        Err(e) => {
            return Err(e);
        },
        Ok(asks) => asks,
    };
    Ok(BookEvent { market, asset_id, bids, asks })
}

fn decode_price_change(fields: &Vec<(String, String)>) -> (change: Result<
    PriceChangeEvent,
    DecodeError,
>)
    ensures
        match change {
            Ok(c) => spec_price_change(fields.deep_view()) == Ok::<
                PriceChangeEventModel,
                DecodeError,
            >(c@),
            Err(e) => spec_price_change(fields.deep_view()) == Err::<
                PriceChangeEventModel,
                DecodeError,
            >(e),
        },
{
    let market = match string_field(fields, "market", Field::Market) {
        Err(e) => {
            return Err(e);
        },
        Ok(market) => market,
    };
    let raws = match array_field(fields, "price_changes", Field::PriceChanges) {
        Err(e) => {
            return Err(e);
        },
        Ok(raws) => raws,
    };
    let price_changes = match decode_changes(&raws) {
        Err(e) => {
            return Err(e);
        },
        Ok(price_changes) => price_changes,
    };
    Ok(PriceChangeEvent { market, price_changes })
}

/// Decodes the event that the fields of one object hold, each field given by its
/// name and the text of its value.
pub fn decode_fields(fields: &Vec<(String, String)>) -> (decoded: Result<WsEvent, DecodeError>)
    ensures
        event_matches(decoded, spec_event_fields(fields.deep_view())),
{
    let kind = match string_field(fields, "event_type", Field::EventType) {
        Err(e) => {
            return Err(e);
        },
        Ok(kind) => kind,
    };
    if is_text(&kind, "book") {
        match decode_book(fields) {
            Err(e) => Err(e),
            Ok(book) => Ok(WsEvent::Book(book)),
        }
    } else if is_text(&kind, "price_change") {
        match decode_price_change(fields) {
            Err(e) => Err(e),
            Ok(change) => Ok(WsEvent::PriceChange(change)),
        }
    } else {
        Err(DecodeError::UnknownEventType)
    }
}

/// Decodes one event object.
pub fn decode_event(text: &str) -> (decoded: Result<WsEvent, DecodeError>)
    ensures
        event_matches(decoded, spec_event(text@)),
{
    match read_object(text) {
        Err(_) => Err(DecodeError::Syntax),
        Ok(fields) => decode_fields(&fields),
    }
}

/// Applies the text policy to the elements that the JSON reader found in a text, or
/// to the text itself where it found no array.
pub fn decode_elements(elements: Option<Vec<String>>, text: &str) -> (item: Option<
    Result<WsEvent, DecodeError>,
>)
    ensures
        match elements {
            Some(found) => if found.len() == 0 {
                item is None
            } else {
                item matches Some(decoded) && event_matches(decoded, spec_event(found[0]@))
            },
            None => item matches Some(decoded) && event_matches(decoded, spec_event(text@)),
        },
{
    match elements {
        Some(found) => {
            if found.len() == 0 {
                None
            } else {
                Some(decode_event(found[0].as_str()))
            }
        },
        None => Some(decode_event(text)),
    }
}

/// Decodes the payload of a text frame. The empty batch `[]` yields nothing.
pub fn decode_text(text: &str) -> (item: Option<Result<WsEvent, DecodeError>>)
    ensures
        match spec_text(text@) {
            None => item is None,
            Some(model) => item matches Some(decoded) && event_matches(decoded, model),
        },
        text@ == "[]"@ ==> item is None,
{
    match read_array(text) {
        Ok(found) => {
            assert(found.len() > 0 ==> found.deep_view()[0] == found[0]@);
            decode_elements(Some(found), text)
        },
        Err(_) => decode_elements(None, text),
    }
}

/// Decodes one frame. A text frame that holds the empty batch `[]` yields nothing.
pub fn decode_frame(frame: &Frame) -> (item: Option<Result<WsEvent, WsError>>)
    ensures
        frame_matches(*frame, item),
        frame matches Frame::Text(text) && text@ == "[]"@ ==> item is None,
{
    match frame {
        Frame::Text(text) => match decode_text(text.as_str()) {
            None => None,
            Some(Ok(event)) => Some(Ok(event)),
            Some(Err(e)) => Some(Err(WsError::DecodeFailure(e))),
        },
        Frame::Binary(_) => Some(Err(WsError::UnsupportedFrame)),
        Frame::Close => Some(Err(WsError::ConnectionClosed)),
        Frame::Ping(_) => None,
        Frame::Pong(_) => None,
        Frame::Raw => None,
    }
}

/// Decodes what one read of the transport gave: a frame, or the words of the error
/// that the read failed with, which become a `TransportFailure`.
pub fn decode_incoming(incoming: Result<Frame, String>) -> (item: Option<Result<WsEvent, WsError>>)
    ensures
        match incoming {
            Ok(frame) => frame_matches(frame, item),
            Err(detail) => item == Some(
                Err::<WsEvent, WsError>(WsError::TransportFailure(detail)),
            ),
        },
        incoming matches Ok(Frame::Text(text)) && text@ == "[]"@ ==> item is None,
{
    match incoming {
        Ok(frame) => decode_frame(&frame),
        Err(detail) => Some(Err(WsError::TransportFailure(detail))),
    }
}

} // verus!

//! Green Button feed ingestion: columnar stores filled from one Atom feed,
//! a daylight-saving rule decoder, the join that denormalizes the stores into
//! one time series, and the encoders that render that series.

mod content;
mod decimal;
mod denormalize;
mod dst;
mod encode;
mod entry;
mod error;
mod feed;
mod gb_type_details;
mod interval_reading;
mod local_time_parameters;
mod parse_helpers;
mod reading_type;
mod text;
mod time_period;
mod timeseries;
mod xml;

pub use crate::content::parse_content_data;
pub use crate::decimal::Decimal;
pub use crate::denormalize::denormalize_and_link;
pub use crate::dst::{get_date, get_date_from_dst_rule, get_datetime, local_time_of, Weekday};
pub use crate::entry::{get_meter_reading, parse_entry, Entries, EntriesRowBuilder, EntryType};
pub use crate::error::GreenButtonError;
pub use crate::feed::parse_xml;
pub use crate::gb_type_details::{
    enums_to_strings, get_gb_type_details, CodeEntry, CodeLookup, GreenButtonFieldMetadata,
};
pub use crate::interval_reading::{
    parse_interval_readings, IntervalReadings, IntervalReadingsRowBuilder,
};
pub use crate::local_time_parameters::{
    parse_local_time_parameters, LocalTimeParameters, LocalTimeParametersRowBuilder,
};
pub use crate::parse_helpers::strip_espi_prefix;
pub use crate::reading_type::{parse_reading_types, ReadingTypes, ReadingTypesRowBuilder};
pub use crate::time_period::parse_time_period_data;
pub use crate::timeseries::{TimeSeries, TimeSeriesView};
pub use crate::xml::{all_text, parse_nodes, XmlNode};

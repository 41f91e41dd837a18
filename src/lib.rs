//! Discovery and reading of the temperature sensors that the Linux kernel's
//! hardware-monitoring subsystem (hwmon) exposes as plain files under sysfs.
//!
//! The library holds the logic: which base identifiers a set of matched sensor
//! files stands for, which files belong to one sensor, and how the contents of
//! those files become one reading or one error. Expanding the glob patterns and
//! reading the files is left to the caller, which hands the outcomes back as
//! plain values.

mod discovery;
mod reading;
mod text;

pub use discovery::{lemma_one_sensor_one_base, lemma_sensor_files_share_base, sensor_base, sensor_patterns, Stat};
pub use reading::{
    lemma_missing_input_not_found, lemma_optional_files_absent, sensor_paths, Error, FileRead, HwmonTemperature, IoFailure, IoKind, SensorFiles, SensorPaths,
};
pub use text::{parse_int, trim_line};

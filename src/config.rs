//! The user's settings record.
use vstd::prelude::*;
use crate::error::ReviewError;

verus! {

/// How many reviews a batch holds when nothing else is configured.
pub const DEFAULT_REVIEWS_PER_BATCH: usize = 5;

/// Minutes between two background checks when nothing else is configured.
pub const DEFAULT_MINUTES_BETWEEN_POPUPS: usize = 60;

#[derive(Debug, Clone, PartialEq, Eq)]
pub struct WanipopConfig {
    pub num_of_reviews_per_batch: usize,
    pub time_between_popups_in_minutes: usize,
    pub wanikani_api_key: Option<String>,
    pub hide_window_decorations: bool,
}

impl Default for WanipopConfig {
    fn default() -> (r: Self)
        ensures
            r.num_of_reviews_per_batch == DEFAULT_REVIEWS_PER_BATCH,
            r.time_between_popups_in_minutes == DEFAULT_MINUTES_BETWEEN_POPUPS,
            r.wanikani_api_key is None,
            !r.hide_window_decorations,
    {
        WanipopConfig::new(DEFAULT_REVIEWS_PER_BATCH, DEFAULT_MINUTES_BETWEEN_POPUPS, None, false)
    }
}

impl WanipopConfig {
    pub fn new(
        num_of_reviews_per_batch: usize,
        time_between_popups_in_minutes: usize,
        wanikani_api_key: Option<String>,
        hide_window_decorations: bool,
    ) -> (r: WanipopConfig)
        ensures
            r.num_of_reviews_per_batch == num_of_reviews_per_batch,
            r.time_between_popups_in_minutes == time_between_popups_in_minutes,
            r.wanikani_api_key == wanikani_api_key,
            r.hide_window_decorations == hide_window_decorations,
    {
        WanipopConfig {
            num_of_reviews_per_batch,
            time_between_popups_in_minutes,
            wanikani_api_key,
            hide_window_decorations,
        }
    }

    /// Sets the API key; the other settings stay as they were.
    pub fn set_api_key(&mut self, key: String)
        ensures
            *final(self) == (WanipopConfig { wanikani_api_key: Some(key), ..*old(self) }),
    {
        self.wanikani_api_key = Some(key);
    }

    /// Sets the batch size; the other settings stay as they were.
    pub fn set_num_of_reviews_per_batch(&mut self, new_num_of_reviews_per_batch: usize)
        ensures
            *final(self) == (WanipopConfig {
                num_of_reviews_per_batch: new_num_of_reviews_per_batch,
                ..*old(self)
            }),
    {
        self.num_of_reviews_per_batch = new_num_of_reviews_per_batch;
    }

    /// Sets the interval between background checks; the other settings stay
    /// as they were.
    pub fn set_time_between_popups_in_minutes(&mut self, new_time_between_popups_in_minutes: usize)
        ensures
            *final(self) == (WanipopConfig {
                time_between_popups_in_minutes: new_time_between_popups_in_minutes,
                ..*old(self)
            }),
    {
        self.time_between_popups_in_minutes = new_time_between_popups_in_minutes;
    }

    /// Sets whether the window is drawn without decorations; the other
    /// settings stay as they were.
    pub fn set_hide_window_decorations(&mut self, new_hide_window_decorations: bool)
        ensures
            *final(self) == (WanipopConfig {
                hide_window_decorations: new_hide_window_decorations,
                ..*old(self)
            }),
    {
        self.hide_window_decorations = new_hide_window_decorations;
    }

    /// A copy of the configured API key, or `ConfigurationMissing` where none
    /// is set.
    pub fn api_key(&self) -> (r: Result<String, ReviewError>)
        ensures
            match self.wanikani_api_key {
                Some(k) => r == Ok::<String, ReviewError>(k),
                None => r == Err::<String, ReviewError>(ReviewError::ConfigurationMissing),
            },
    {
        match &self.wanikani_api_key {
            Some(k) => Ok(k.clone()),
            None => Err(ReviewError::ConfigurationMissing),
        }
    }

    /// A copy of the configured API key, or the text "No api key set" with
    /// which the single-request commands answer where none is set.
    pub fn api_key_or_message(&self) -> (r: Result<String, String>)
        ensures
            match self.wanikani_api_key {
                Some(k) => r == Ok::<String, String>(k),
                None => r matches Err(m) && m@ == "No api key set"@,
            },
    {
        match &self.wanikani_api_key {
            Some(k) => Ok(k.clone()),
            None => Err(String::from_str("No api key set")),
        }
    }

    /// What a batch request needs from the settings, taken at once: the API
    /// key and the batch size.
    pub fn batch_settings(&self) -> (r: Result<(String, usize), ReviewError>)
        ensures
            match self.wanikani_api_key {
                Some(k) => r == Ok::<(String, usize), ReviewError>(
                    (k, self.num_of_reviews_per_batch),
                ),
                None => r == Err::<(String, usize), ReviewError>(ReviewError::ConfigurationMissing),
            },
    {
        match self.api_key() {
            Ok(k) => Ok((k, self.num_of_reviews_per_batch)),
            Err(e) => Err(e),
        }
    }
}

} // verus!

//! A weather-forecast library built around interchangeable provider
//! strategies: a date resolver turns a date expression into a concrete
//! calendar day and its signed distance from an injected "today"; each
//! strategy builds its provider's query URL, enforcing that provider's
//! date-availability window, and normalizes the provider's JSON payload
//! into one canonical forecast record; an orchestrator drives a request
//! from provider selection to the final verdict, with the network call
//! injected as a plain outcome. Every function is specified and
//! verified; the transport, the clock, the terminal and the
//! configuration file stay outside.

pub mod config;
pub mod date;
pub mod json;
pub mod open_weather_strategy;
pub mod urlenc;
pub mod util;
pub mod weather_service;
pub mod weatherapi_strategy;

# oyatsu

A Japanese calendar for the terminal: the era year (和暦), the traditional
month name (和風月名), the day and its sexagenary sign (干支), the hour of the
temporal-hour clock (不定時法), the solar term (二十四節気), the seasonal day
(雑節), public holidays and the next moon phase. During the hour of the goat
(未の刻) the output begins with おやつ.

The calendar logic is a library verified with Verus; the program around it
reads the command line, the clock and the location file, and computes the
positions of the sun and the moon in floating point.

With `--lang en` every part of the line is in English except the names of
holidays and seasonal days, which have no English table and keep their
Japanese names (海の日, 半夏生); an unnamed holiday shows as "Holiday".

## Layout

- `src/` — the verified library
  - `date.rs` — Gregorian dates, their day count, the Julian day number and
    its inverse, with the laws that tie them together
  - `koyomi.rs` — era years, kanji numerals, month names, stems and branches,
    the temporal-hour clock, solar terms and seasonal days
  - `i18n.rs` — English renderings of the Japanese texts and the choice of
    language
  - `holidays.rs` — the holiday table and its lookup
  - `moonface.rs` — the next principal moon phase and its message
  - `display.rs` — the output lines
  - `cli.rs` — the command-line options, the location file's lines and the
    choice of place
  - `text.rs` — small string helpers
- `tests/` — tests of the library
- `app/` — the program: arguments, clock, files, and the floating-point
  astronomy (solar longitude, sunrise and sunset, moon phases)

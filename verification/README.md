# correo

A lint for Japanese technical prose, written in Verus: every detector is an
executable function whose result is pinned down by a specification and proved.

## Layout

- `src/` — the verified library.
  - `text`, `numfmt`, `unicode` — character sequences, lines, decimal and
    fixed-point rendering, Unicode property tables.
  - `wide` — unbounded naturals as 64-bit limbs (products, sums, differences,
    comparisons, division by a word), so that thresholds are decided exactly
    on documents of any length.
  - `double` — IEEE 754 binary64 division and scaling on non-negative
    values, modelled exactly (round to nearest, ties to even), and `{:.p}`
    rendering of a double.
  - `prose` — fences, inline code, HTML stripping (line count kept), prose
    units and sentences: what every detector reads.
  - one module per detector: `kinoshita` (readability), `structure`, `rhetoric`,
    `rhythm`, `density`, `codemix`, `calque`, `coinage`, `notation`, `counter`,
    `completeness`, `deny`, `jargon` / `latin_token` (jargon-export).
  - `suppress` — `<!-- correo-ignore -->` directives.
  - `pipeline` — the detector registry of `check`, severities, suppression.
  - `check`, `report`, `config` — ordering, rendering, exit status, settings.
- `tests/` — scenario tests, run against the compiled library.
- `app/` — the command line: argument parsing, file walking and reading,
  configuration files, JSON output, dictionary setup.

Rates and shares (code-mixing density, rhetorical rates, ASCII share, bits
per character) are computed as binary64 computes them, with the `double`
model, so thresholds and displayed figures are those of `f64`. Rhythm
statistics (means, standard deviations, burstiness) are compared in exact
integer arithmetic and shown rounded half to even.

# examgo

The verified core of ExamGo AI, a desktop app that asks a local language
model (served by Ollama) for multiple-choice practice questions for a
certification exam and keeps the resulting question sets.

- `src/` is the library, checked by Verus:
  - `text` — whitespace trimming, decimal rendering, the file-name sanitiser;
  - `json` — a plain model of JSON values and the parse call into serde_json;
  - `question` — reading questions out of a model's reply (tolerant parsing,
    the first question array, complete questions only, answer labels removed);
  - `prompt` — the generation prompt;
  - `ollama` — model choice, the request's token budget and question schema,
    the retry sequence of chat requests, reading chat replies and model
    lists, the step-by-step setup of the local server, and the
    download-progress stream;
  - `store` — sets, settings and progress records, generation plans, merging
    the models' results, imports, attempts and the newest-first listing;
  - `platform` — the commands run on each operating system (installing,
    stopping and configuring the server), the clock, and
    small readings of command output and paths.
- `app/` is the Tauri shell: commands, files, HTTP, processes and async code.
- `tests/` runs the library on concrete inputs.

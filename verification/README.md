# watermelon

The verified core of a browser-automation program: scenarios made of blocks run
on browser profiles, by hand, over a tool server, or on a schedule.

The library in `src/` decides; the program in `app/` acts. The library reads no
file, opens no socket, and looks at no clock but through a few trusted items,
each with its contract. Whatever takes more than one exchange with the outside
is a machine: a step takes what came back and says what to do next, so that
every path of it is verified.

| Modules | What they hold |
|---|---|
| `text`, `map`, `value`, `json`, `chance`, `clock` | texts, maps by text, JSON values and their notation, random numbers, times |
| `model`, `context`, `interpolate`, `plan` | scenarios, the state of a run, filled-in settings, what a block does |
| `machine`, `executor`, `progress` | a run step by step: what it does, how it is carried out, and that it ends within its limits |
| `dataset`, `store`, `manager` | tables of values, the history of runs, the runs under way |
| `scheduler`, `tick`, `usage`, `profiles`, `launching` | who runs, when, how often, and on which browsers |
| `ai` | requests to language models and their replies |
| `cloak` | launching browsers and finding them again |
| `protocol`, `tools`, `calls`, `replies`, `actions` | the tool server: who may come in, what tools there are, what they are called with, what they answer |
| `keys`, `cdp`, `bidi`, `scripts`, `pages` | acting on pages, over either of the protocols that browsers speak |

Floating point stays outside: the library keeps a number that is not whole by
its notation, and asks whoever drives it to compare two of them or to read one.
